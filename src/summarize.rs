use vstd::prelude::*;
use vstd::string::*;

use crate::chunking::{chunk_bounds, chunk_text, lemma_chunks_cover};
use crate::prompts::{
    chunk_prompt, chunk_prompt_text, join_range, joined, one_line_prompt, one_line_prompt_text,
    reduce_prompt, reduce_prompt_text, BATCH_SEPARATOR, CHUNK_SEPARATOR,
};
use crate::text::{chars_of, opt_str, string_from_chars, strs, trim, trim_range};

verus! {

/// Texts shorter than this many characters are summarized in one call.
pub const DIRECT_LIMIT: usize = 8000;

/// Token budget of each map chunk.
pub const MAP_CHUNK_TOKENS: usize = 2000;

/// Tokens shared by neighbouring map chunks.
pub const MAP_OVERLAP_TOKENS: usize = 200;

/// Most summaries merged by one reduce call.
pub const BATCH_REDUCE_SIZE: usize = 10;

/// Output cap of a full structured summary or a reduce call.
pub const SUMMARY_TOKENS: u32 = 1000;

/// Output cap of the summary of one map chunk.
pub const CHUNK_SUMMARY_TOKENS: u32 = 500;

/// Output cap of the one-line digest.
pub const ONE_LINE_TOKENS: u32 = 100;

/// Which sampling settings a generation call uses: the structured ones, or the colder
/// ones of the one-line digest.
#[derive(Debug, Clone, Copy, PartialEq, Eq)]
pub enum CallKind {
    Structured,
    OneLine,
}

/// One call that the engine asks of the text-generation service.
#[derive(Debug, Clone)]
pub struct GenerationCall {
    pub prompt: String,
    pub max_tokens: u32,
    pub kind: CallKind,
}

/// Outcome of a summarization.
#[derive(Debug, Clone)]
pub struct Summary {
    pub text: String,
    pub one_line: String,
    pub model: String,
}

impl Summary {
    pub fn new(text: String, one_line: String, model: String) -> (r: Summary)
        ensures
            r.text@ == text@,
            r.one_line@ == one_line@,
            r.model@ == model@,
    {
        Summary { text, one_line, model }
    }
}

/// The state of a summarization, as sequences of characters.
pub struct JobView {
    pub model: Seq<char>,
    pub direct: bool,
    pub pieces: Seq<Seq<char>>,
    pub chunk_summaries: Seq<Seq<char>>,
    pub batch_summaries: Seq<Seq<char>>,
    pub final_text: Option<Seq<char>>,
    pub one_line: Option<Seq<char>>,
}

/// A summarization in progress. The caller asks `next_call`, performs it, and hands the
/// answer to `accept`, until `next_call` returns `None`; `result` then holds the summary.
pub struct SummaryJob {
    model: String,
    direct: bool,
    pieces: Vec<String>,
    chunk_summaries: Vec<String>,
    batch_summaries: Vec<String>,
    final_text: Option<String>,
    one_line: Option<String>,
}

impl View for SummaryJob {
    type V = JobView;

    closed spec fn view(&self) -> JobView {
        JobView {
            model: self.model@,
            direct: self.direct,
            pieces: strs(self.pieces@),
            chunk_summaries: strs(self.chunk_summaries@),
            batch_summaries: strs(self.batch_summaries@),
            final_text: opt_str(self.final_text),
            one_line: opt_str(self.one_line),
        }
    }
}

/// Number of first-level batches for `n` chunk summaries.
pub open spec fn batch_count(n: int) -> int {
    (n + 9) / 10
}

/// What the engine does next.
pub enum Stage {
    /// Summarize the whole (short) text at once.
    Direct,
    /// Summarize map chunk `k`.
    MapChunk(int),
    /// Merge all chunk summaries in one call.
    ReduceAll,
    /// Merge batch `b` of chunk summaries.
    ReduceBatch(int),
    /// Merge the batch summaries into the final text.
    ReduceBatches,
    /// Condense the final text into one line.
    OneLine,
    Done,
}

pub open spec fn stage(v: JobView) -> Stage {
    if v.one_line is Some {
        Stage::Done
    } else if v.final_text is Some {
        Stage::OneLine
    } else if v.direct {
        Stage::Direct
    } else if v.chunk_summaries.len() < v.pieces.len() {
        Stage::MapChunk(v.chunk_summaries.len() as int)
    } else if v.chunk_summaries.len() <= 10 {
        Stage::ReduceAll
    } else if v.batch_summaries.len() < batch_count(v.chunk_summaries.len() as int) {
        Stage::ReduceBatch(v.batch_summaries.len() as int)
    } else {
        Stage::ReduceBatches
    }
}

/// Chunk summaries of batch `b`.
pub open spec fn batch_of(cs: Seq<Seq<char>>, b: int) -> Seq<Seq<char>> {
    let hi = if 10 * b + 10 < cs.len() {
        10 * b + 10
    } else {
        cs.len() as int
    };
    cs.subrange(10 * b, hi)
}

/// The prompt and output cap of the next call, or `None` when the summary is complete.
pub open spec fn next_call_of(v: JobView) -> Option<(Seq<char>, int, CallKind)> {
    match stage(v) {
        Stage::Direct => Some((chunk_prompt_text(v.pieces[0]), 1000, CallKind::Structured)),
        Stage::MapChunk(k) => Some((chunk_prompt_text(v.pieces[k]), 500, CallKind::Structured)),
        Stage::ReduceAll => Some(
            (
                reduce_prompt_text(joined(v.chunk_summaries, CHUNK_SEPARATOR@)),
                1000,
                CallKind::Structured,
            ),
        ),
        Stage::ReduceBatch(b) => Some(
            (
                reduce_prompt_text(joined(batch_of(v.chunk_summaries, b), CHUNK_SEPARATOR@)),
                1000,
                CallKind::Structured,
            ),
        ),
        Stage::ReduceBatches => Some(
            (
                reduce_prompt_text(joined(v.batch_summaries, BATCH_SEPARATOR@)),
                1000,
                CallKind::Structured,
            ),
        ),
        Stage::OneLine => Some((one_line_prompt_text(v.final_text->0), 100, CallKind::OneLine)),
        Stage::Done => None,
    }
}

/// The one-line digest made of a generated answer: trimmed, line breaks turned into spaces.
pub open spec fn one_line_of(answer: Seq<char>) -> Seq<char> {
    trim(answer).map_values(|c: char| flat_char(c))
}

/// A line break becomes a space; any other character stays.
pub open spec fn flat_char(c: char) -> char {
    if c == '\n' {
        ' '
    } else {
        c
    }
}

/// The state after the answer to the call that `next_call_of(v)` asked for.
pub open spec fn after_answer(v: JobView, answer: Seq<char>) -> JobView {
    match stage(v) {
        Stage::Direct => JobView { final_text: Some(answer), ..v },
        Stage::MapChunk(_) => JobView { chunk_summaries: v.chunk_summaries.push(answer), ..v },
        Stage::ReduceAll => JobView { final_text: Some(answer), ..v },
        Stage::ReduceBatch(_) => JobView { batch_summaries: v.batch_summaries.push(answer), ..v },
        Stage::ReduceBatches => JobView { final_text: Some(answer), ..v },
        Stage::OneLine => JobView { one_line: Some(one_line_of(answer)), ..v },
        Stage::Done => v,
    }
}

/// Pieces of `t` that the map phase summarizes one by one.
pub open spec fn map_pieces(t: Seq<char>) -> Seq<Seq<char>> {
    chunk_bounds(t, 2000, 200).map_values(|b: (int, int)| t.subrange(b.0, b.1))
}

/// The state in which the summarization of `t` begins.
pub open spec fn start_view(t: Seq<char>, model: Seq<char>) -> JobView {
    if t.len() < 8000 {
        JobView {
            model,
            direct: true,
            pieces: seq![t],
            chunk_summaries: seq![],
            batch_summaries: seq![],
            final_text: None,
            one_line: None,
        }
    } else {
        JobView {
            model,
            direct: false,
            pieces: map_pieces(t),
            chunk_summaries: seq![],
            batch_summaries: seq![],
            final_text: None,
            one_line: None,
        }
    }
}

impl SummaryJob {
    pub closed spec fn wf(&self) -> bool {
        &&& self.direct ==> self.pieces@.len() == 1
        &&& self.chunk_summaries@.len() <= self.pieces@.len()
        &&& self.one_line is Some ==> self.final_text is Some
    }

    /// Begins the summarization of `text` with generation model `model`: one call for a
    /// text shorter than the direct limit, else a map over chunks and a reduce.
    pub fn new(text: &str, model: String) -> (r: SummaryJob)
        ensures
            r.wf(),
            r@ == start_view(text@, model@),
    {
        let n = chars_of(text).len();
        if n < DIRECT_LIMIT {
            let pieces = vec![text.to_owned()];
            let r = SummaryJob {
                model,
                direct: true,
                pieces,
                chunk_summaries: Vec::new(),
                batch_summaries: Vec::new(),
                final_text: None,
                one_line: None,
            };
            proof {
                assert(r@.pieces =~= seq![text@]);
                assert(r@.chunk_summaries =~= seq![]);
                assert(r@.batch_summaries =~= seq![]);
            }
            return r;
        }
        let chunks = chunk_text(text, MAP_CHUNK_TOKENS, MAP_OVERLAP_TOKENS);
        let ghost bounds = chunk_bounds(text@, 2000, 200);
        let mut pieces: Vec<String> = Vec::new();
        let mut i: usize = 0;
        while i < chunks.len()
            invariant
                0 <= i <= chunks@.len(),
                chunks@.len() == bounds.len(),
                forall|k: int|
                    0 <= k < chunks@.len() ==> (#[trigger] chunks@[k]).text@ == text@.subrange(
                        bounds[k].0,
                        bounds[k].1,
                    ),
                pieces@.len() == i,
                forall|k: int|
                    0 <= k < i ==> (#[trigger] pieces@[k])@ == text@.subrange(
                        bounds[k].0,
                        bounds[k].1,
                    ),
            decreases chunks@.len() - i,
        {
            pieces.push(chunks[i].text.clone());
            i = i + 1;
        }
        let r = SummaryJob {
            model,
            direct: false,
            pieces,
            chunk_summaries: Vec::new(),
            batch_summaries: Vec::new(),
            final_text: None,
            one_line: None,
        };
        proof {
            assert(r@.pieces =~= map_pieces(text@));
            assert(r@.chunk_summaries =~= seq![]);
            assert(r@.batch_summaries =~= seq![]);
        }
        r
    }

    /// The call that the summarization needs next, or `None` once it is complete.
    pub fn next_call(&self) -> (r: Option<GenerationCall>)
        requires
            self.wf(),
        ensures
            match (r, next_call_of(self@)) {
                (None, None) => true,
                (Some(c), Some(want)) => c.prompt@ == want.0 && c.max_tokens == want.1 && c.kind
                    == want.2,
                _ => false,
            },
    {
        if self.one_line.is_some() {
            return None;
        }
        if let Some(f) = &self.final_text {
            return Some(
                GenerationCall {
                    prompt: one_line_prompt(f.as_str()),
                    max_tokens: ONE_LINE_TOKENS,
                    kind: CallKind::OneLine,
                },
            );
        }
        if self.direct {
            return Some(
                GenerationCall {
                    prompt: chunk_prompt(self.pieces[0].as_str()),
                    max_tokens: SUMMARY_TOKENS,
                    kind: CallKind::Structured,
                },
            );
        }
        let n = self.chunk_summaries.len();
        if n < self.pieces.len() {
            return Some(
                GenerationCall {
                    prompt: chunk_prompt(self.pieces[n].as_str()),
                    max_tokens: CHUNK_SUMMARY_TOKENS,
                    kind: CallKind::Structured,
                },
            );
        }
        let ghost cs = self@.chunk_summaries;
        if n <= BATCH_REDUCE_SIZE {
            let all = join_range(&self.chunk_summaries, 0, n, CHUNK_SEPARATOR);
            proof {
                assert(strs(self.chunk_summaries@.subrange(0, n as int)) =~= cs);
            }
            return Some(
                GenerationCall {
                    prompt: reduce_prompt(all.as_str()),
                    max_tokens: SUMMARY_TOKENS,
                    kind: CallKind::Structured,
                },
            );
        }
        let batches = n / BATCH_REDUCE_SIZE + if n % BATCH_REDUCE_SIZE != 0 {
            1
        } else {
            0
        };
        assert(batches == batch_count(n as int));
        let b = self.batch_summaries.len();
        if b < batches {
            assert(10 * b < n) by (nonlinear_arith)
                requires
                    b < batches,
                    batches == n / 10 + if n % 10 != 0 {
                        1int
                    } else {
                        0int
                    },
            ;
            let lo = BATCH_REDUCE_SIZE * b;
            let hi = if n - lo > BATCH_REDUCE_SIZE {
                lo + BATCH_REDUCE_SIZE
            } else {
                n
            };
            let part = join_range(&self.chunk_summaries, lo, hi, CHUNK_SEPARATOR);
            proof {
                assert(strs(self.chunk_summaries@.subrange(lo as int, hi as int))
                    =~= batch_of(cs, b as int));
            }
            return Some(
                GenerationCall {
                    prompt: reduce_prompt(part.as_str()),
                    max_tokens: SUMMARY_TOKENS,
                    kind: CallKind::Structured,
                },
            );
        }
        let nb = self.batch_summaries.len();
        let all = join_range(&self.batch_summaries, 0, nb, BATCH_SEPARATOR);
        proof {
            assert(strs(self.batch_summaries@.subrange(0, nb as int)) =~= self@.batch_summaries);
        }
        Some(
            GenerationCall {
                prompt: reduce_prompt(all.as_str()),
                max_tokens: SUMMARY_TOKENS,
                kind: CallKind::Structured,
            },
        )
    }

    /// Records the answer to the call that `next_call` asked for.
    pub fn accept(&mut self, answer: String)
        requires
            old(self).wf(),
        ensures
            final(self).wf(),
            final(self)@ == after_answer(old(self)@, answer@),
    {
        let ghost v = self@;
        if self.one_line.is_some() {
            return;
        }
        if self.final_text.is_some() {
            let line = clean_one_line(answer.as_str());
            self.one_line = Some(line);
            proof {
                assert(self@ == after_answer(v, answer@));
            }
            return;
        }
        if self.direct {
            self.final_text = Some(answer);
            return;
        }
        let n = self.chunk_summaries.len();
        if n < self.pieces.len() {
            self.chunk_summaries.push(answer);
            proof {
                assert(self@.chunk_summaries =~= v.chunk_summaries.push(answer@));
                assert(self@ == after_answer(v, answer@));
            }
            return;
        }
        if n <= BATCH_REDUCE_SIZE {
            self.final_text = Some(answer);
            return;
        }
        let batches = n / BATCH_REDUCE_SIZE + if n % BATCH_REDUCE_SIZE != 0 {
            1
        } else {
            0
        };
        if self.batch_summaries.len() < batches {
            self.batch_summaries.push(answer);
            proof {
                assert(self@.batch_summaries =~= v.batch_summaries.push(answer@));
                assert(self@ == after_answer(v, answer@));
            }
            return;
        }
        self.final_text = Some(answer);
    }

    /// The finished summary, once every call has been answered.
    pub fn result(&self) -> (r: Option<Summary>)
        requires
            self.wf(),
        ensures
            r is Some <==> self@.one_line is Some,
            r is Some ==> {
                &&& Some(r->0.text@) == self@.final_text
                &&& Some(r->0.one_line@) == self@.one_line
                &&& r->0.model@ == self@.model
            },
    {
        match (&self.final_text, &self.one_line) {
            (Some(text), Some(line)) => Some(
                Summary::new(text.clone(), line.clone(), self.model.clone()),
            ),
            _ => None,
        }
    }
}

/// The one-line digest made of a generated answer.
pub fn clean_one_line(answer: &str) -> (r: String)
    ensures
        r@ == one_line_of(answer@),
{
    let chars = chars_of(answer);
    let (a, b) = trim_range(&chars, 0, chars.len());
    let ghost t = chars@.subrange(a as int, b as int);
    assert(chars@.subrange(0, chars@.len() as int) =~= answer@);
    let mut out: Vec<char> = Vec::new();
    let mut i = a;
    while i < b
        invariant
            a <= i <= b <= chars@.len(),
            t == chars@.subrange(a as int, b as int),
            out@ =~= t.subrange(0, i - a).map_values(|c: char| flat_char(c)),
        decreases b - i,
    {
        let c = chars[i];
        let d = if c == '\n' {
            ' '
        } else {
            c
        };
        out.push(d);
        i = i + 1;
    }
    assert(t.subrange(0, b - a) =~= t);
    string_from_chars(&out)
}

} // verus!

verus! {

/// The state after `answers`, one after the other, from `v`.
pub open spec fn replay(v: JobView, answers: Seq<Seq<char>>) -> JobView
    decreases answers.len(),
{
    if answers.len() == 0 {
        v
    } else {
        after_answer(replay(v, answers.drop_last()), answers.last())
    }
}

/// A text shorter than the direct limit is summarized by exactly two calls: the structured
/// summary of the whole text, then the one-line digest of that summary.
pub proof fn lemma_short_text_direct(
    t: Seq<char>,
    model: Seq<char>,
    summary: Seq<char>,
    line: Seq<char>,
)
    requires
        t.len() < 8000,
    ensures
        next_call_of(start_view(t, model)) == Some(
            (chunk_prompt_text(t), 1000int, CallKind::Structured),
        ),
        next_call_of(replay(start_view(t, model), seq![summary])) == Some(
            (one_line_prompt_text(summary), 100int, CallKind::OneLine),
        ),
        (next_call_of(replay(start_view(t, model), seq![summary, line])) is None),
        replay(start_view(t, model), seq![summary, line]).final_text == Some(summary),
        replay(start_view(t, model), seq![summary, line]).one_line == Some(one_line_of(line)),
{
    let v0 = start_view(t, model);
    assert(seq![summary].drop_last() =~= seq![]);
    assert(seq![summary, line].drop_last() =~= seq![summary]);
    assert(replay(v0, seq![]) == v0);
    let v1 = after_answer(v0, summary);
    assert(replay(v0, seq![summary]) == v1);
    assert(v1.final_text == Some(summary));
    let v2 = after_answer(v1, line);
    assert(replay(v0, seq![summary, line]) == v2);
}

proof fn lemma_map_prefix(t: Seq<char>, model: Seq<char>, answers: Seq<Seq<char>>)
    requires
        t.len() >= 8000,
        answers.len() <= map_pieces(t).len(),
    ensures
        replay(start_view(t, model), answers) == (JobView {
            chunk_summaries: answers,
            ..start_view(t, model)
        }),
    decreases answers.len(),
{
    let v0 = start_view(t, model);
    if answers.len() > 0 {
        lemma_map_prefix(t, model, answers.drop_last());
        let prev = JobView { chunk_summaries: answers.drop_last(), ..v0 };
        assert(replay(v0, answers.drop_last()) == prev);
        assert(!prev.direct && prev.one_line is None && prev.final_text is None);
        assert(prev.chunk_summaries.len() < prev.pieces.len());
        assert(answers.drop_last().push(answers.last()) =~= answers);
        assert(after_answer(prev, answers.last()) == (JobView { chunk_summaries: answers, ..v0 }));
    } else {
        assert(answers =~= seq![]);
        assert(v0.chunk_summaries =~= answers);
    }
}

/// A text of at least the direct limit takes the map-reduce path: at exactly the limit it
/// is one chunk, above it two chunks or more. The engine first asks for the summary of each chunk in order, then, with more than ten
/// chunk summaries, merges them batch by batch (the first batch: the first ten), and
/// with ten or fewer merges them all at once.
pub proof fn lemma_long_text_map_reduce(t: Seq<char>, model: Seq<char>, answers: Seq<Seq<char>>)
    requires
        t.len() >= 8000,
        answers.len() == map_pieces(t).len(),
    ensures
        t.len() > 8000 ==> map_pieces(t).len() >= 2,
        t.len() == 8000 ==> map_pieces(t).len() == 1,
        forall|k: int|
            0 <= k < answers.len() ==> next_call_of(
                #[trigger] replay(start_view(t, model), answers.take(k)),
            ) == Some((chunk_prompt_text(map_pieces(t)[k]), 500int, CallKind::Structured)),
        answers.len() > 10 ==> next_call_of(replay(start_view(t, model), answers)) == Some(
            (
                reduce_prompt_text(joined(answers.take(10), CHUNK_SEPARATOR@)),
                1000int,
                CallKind::Structured,
            ),
        ),
        answers.len() <= 10 ==> next_call_of(replay(start_view(t, model), answers)) == Some(
            (reduce_prompt_text(joined(answers, CHUNK_SEPARATOR@)), 1000int, CallKind::Structured),
        ),
{
    lemma_chunks_cover(t, 2000, 200);
    assert forall|k: int|
        0 <= k < answers.len() implies next_call_of(
        #[trigger] replay(start_view(t, model), answers.take(k)),
    ) == Some((chunk_prompt_text(map_pieces(t)[k]), 500int, CallKind::Structured)) by {
        lemma_map_prefix(t, model, answers.take(k));
    }
    lemma_map_prefix(t, model, answers);
    if answers.len() > 10 {
        assert(batch_of(answers, 0) =~= answers.take(10));
    }
}

/// Number of calls that summarizing a text of `n` map chunks takes: the chunk summaries,
/// one reduce per batch of ten when there are more than ten, the final reduce and the
/// one-line digest.
pub open spec fn map_reduce_calls(n: int) -> int {
    if n > 10 {
        n + batch_count(n) + 2
    } else {
        n + 2
    }
}

proof fn lemma_replay_take(v: JobView, a: Seq<Seq<char>>, k: int)
    requires
        0 <= k < a.len(),
    ensures
        replay(v, a.take(k + 1)) == after_answer(replay(v, a.take(k)), a[k]),
{
    assert(a.take(k + 1).drop_last() =~= a.take(k));
    assert(a.take(k + 1).last() == a[k]);
}

proof fn lemma_batch_prefix(t: Seq<char>, model: Seq<char>, a: Seq<Seq<char>>, k: int)
    requires
        t.len() >= 8000,
        map_pieces(t).len() > 10,
        map_pieces(t).len() <= k <= map_pieces(t).len() + batch_count(map_pieces(t).len() as int),
        k <= a.len(),
    ensures
        replay(start_view(t, model), a.take(k)) == (JobView {
            chunk_summaries: a.take(map_pieces(t).len() as int),
            batch_summaries: a.subrange(map_pieces(t).len() as int, k),
            ..start_view(t, model)
        }),
    decreases k,
{
    let n = map_pieces(t).len() as int;
    let v0 = start_view(t, model);
    if k == n {
        lemma_map_prefix(t, model, a.take(n));
        assert(a.subrange(n, n) =~= Seq::<Seq<char>>::empty());
        assert(v0.batch_summaries =~= a.subrange(n, n));
    } else {
        lemma_batch_prefix(t, model, a, k - 1);
        lemma_replay_take(v0, a, k - 1);
        let prev = JobView {
            chunk_summaries: a.take(n),
            batch_summaries: a.subrange(n, k - 1),
            ..v0
        };
        assert(stage(prev) == Stage::ReduceBatch(k - 1 - n));
        assert(a.subrange(n, k - 1).push(a[k - 1]) =~= a.subrange(n, k));
    }
}

/// On a text of at least the direct limit, with `n` map chunks, the summarization
/// takes exactly `map_reduce_calls(n)` calls, whatever the answers: each of the first ones
/// is asked for, none after them; the summary is the answer to the last reduce call and
/// the digest is made of the last answer.
pub proof fn lemma_long_text_call_count(t: Seq<char>, model: Seq<char>, answers: Seq<Seq<char>>)
    requires
        t.len() >= 8000,
        answers.len() == map_reduce_calls(map_pieces(t).len() as int),
    ensures
        forall|k: int|
            0 <= k < answers.len() ==> #[trigger] next_call_of(
                replay(start_view(t, model), answers.take(k)),
            ) is Some,
        next_call_of(replay(start_view(t, model), answers)) is None,
        replay(start_view(t, model), answers).final_text == Some(answers[answers.len() - 2]),
        replay(start_view(t, model), answers).one_line == Some(one_line_of(answers.last())),
{
    let n = map_pieces(t).len() as int;
    let v0 = start_view(t, model);
    let total = answers.len() as int;
    let r = if n > 10 { n + batch_count(n) } else { n };
    assert forall|k: int| 0 <= k < total implies #[trigger] next_call_of(
        replay(v0, answers.take(k)),
    ) is Some by {
        if k <= n {
            lemma_map_prefix(t, model, answers.take(k));
        } else if n > 10 && k <= r {
            lemma_batch_prefix(t, model, answers, k);
        } else {
            // k == r + 1: the final text is set, the digest is asked for
            lemma_final_stage(t, model, answers);
            assert(k == r + 1);
        }
    }
    lemma_final_stage(t, model, answers);
    assert(answers.take(total) =~= answers);
}

proof fn lemma_final_stage(t: Seq<char>, model: Seq<char>, answers: Seq<Seq<char>>)
    requires
        t.len() >= 8000,
        answers.len() == map_reduce_calls(map_pieces(t).len() as int),
    ensures
        ({
            let n = map_pieces(t).len() as int;
            let r = if n > 10 { n + batch_count(n) } else { n };
            let v0 = start_view(t, model);
            &&& replay(v0, answers.take(r + 1)).final_text == Some(answers[r])
            &&& replay(v0, answers.take(r + 1)).one_line is None
            &&& next_call_of(replay(v0, answers.take(r + 1))) is Some
            &&& replay(v0, answers.take(r + 2)).final_text == Some(answers[r])
            &&& replay(v0, answers.take(r + 2)).one_line == Some(one_line_of(answers[r + 1]))
            &&& r + 2 == answers.len()
        }),
{
    let n = map_pieces(t).len() as int;
    let r = if n > 10 { n + batch_count(n) } else { n };
    let v0 = start_view(t, model);
    lemma_chunks_cover(t, 2000, 200);
    if n > 10 {
        lemma_batch_prefix(t, model, answers, r);
    } else {
        lemma_map_prefix(t, model, answers.take(n));
    }
    lemma_replay_take(v0, answers, r);
    lemma_replay_take(v0, answers, r + 1);
}

} // verus!

use vstd::prelude::*;
use vstd::string::*;

use crate::text::{chars_of, opt_str};

verus! {

/// The phases of a workflow, in the order in which they run.
#[derive(Debug, Clone, Copy, PartialEq, Eq)]
pub enum WorkflowStep {
    AudioExtraction,
    Transcription,
    Summarization,
    Embedding,
}

/// Which phases one invocation runs, and with what.
#[derive(Debug, Clone)]
pub struct WorkflowOptions {
    pub run_stt: bool,
    pub run_summarize: bool,
    pub run_embed: bool,
    pub stt_model: Option<String>,
    pub summary_model: Option<String>,
    pub language: Option<String>,
}

/// What one invocation produced.
#[derive(Debug)]
pub struct WorkflowResult {
    pub transcript_path: Option<String>,
    pub summary_path: Option<String>,
    pub embedding_id: Option<String>,
}

/// Progress when transcription starts, loads the audio, writes its output, and is done.
pub const PROGRESS_STT_START: u8 = 10;
pub const PROGRESS_STT_LOAD: u8 = 20;
pub const PROGRESS_STT_WRITE: u8 = 40;
pub const PROGRESS_STT_DONE: u8 = 50;
/// Progress when the summary is generated, written, done, or skipped for want of text.
pub const PROGRESS_SUMMARY_START: u8 = 60;
pub const PROGRESS_SUMMARY_SKIPPED: u8 = 70;
pub const PROGRESS_SUMMARY_WRITE: u8 = 75;
pub const PROGRESS_SUMMARY_DONE: u8 = 80;
/// Progress when the embedding is done or skipped.
pub const PROGRESS_EMBED_DONE: u8 = 90;
pub const PROGRESS_DONE: u8 = 100;

/// The first of `candidates` that holds some text.
pub open spec fn first_text(candidates: Seq<Option<Seq<char>>>) -> Option<Seq<char>>
    decreases candidates.len(),
{
    if candidates.len() == 0 {
        None
    } else if candidates[0] is Some && candidates[0]->0.len() > 0 {
        candidates[0]
    } else {
        first_text(candidates.drop_first())
    }
}

fn has_text(o: &Option<String>) -> (r: bool)
    ensures
        r == (o is Some && o->0@.len() > 0),
{
    match o {
        Some(s) => chars_of(s.as_str()).len() > 0,
        None => false,
    }
}

/// The text that the summary phase works on: the transcript made by this invocation,
/// else the one saved by an earlier one; `None` (the phase is skipped) when neither holds
/// any text.
pub fn summary_input(fresh_transcript: Option<String>, saved_transcript: Option<String>) -> (r:
    Option<String>)
    ensures
        opt_str(r) == first_text(seq![opt_str(fresh_transcript), opt_str(saved_transcript)]),
{
    let ghost c = seq![opt_str(fresh_transcript), opt_str(saved_transcript)];
    assert(c.drop_first() =~= seq![opt_str(saved_transcript)]);
    assert(c.drop_first().drop_first() =~= Seq::<Option<Seq<char>>>::empty());
    proof {
        reveal_with_fuel(first_text, 3);
    }
    if has_text(&fresh_transcript) {
        fresh_transcript
    } else if has_text(&saved_transcript) {
        saved_transcript
    } else {
        None
    }
}

/// The text that the embedding phase works on: this invocation's summary, else its
/// transcript, else the saved summary, else the saved transcript; `None` (the phase is
/// skipped) when none holds any text.
pub fn embed_input(
    fresh_summary: Option<String>,
    fresh_transcript: Option<String>,
    saved_summary: Option<String>,
    saved_transcript: Option<String>,
) -> (r: Option<String>)
    ensures
        opt_str(r) == first_text(
            seq![
                opt_str(fresh_summary),
                opt_str(fresh_transcript),
                opt_str(saved_summary),
                opt_str(saved_transcript),
            ],
        ),
{
    let ghost c = seq![
        opt_str(fresh_summary),
        opt_str(fresh_transcript),
        opt_str(saved_summary),
        opt_str(saved_transcript),
    ];
    assert(c.drop_first() =~= seq![
        opt_str(fresh_transcript),
        opt_str(saved_summary),
        opt_str(saved_transcript),
    ]);
    assert(c.drop_first().drop_first() =~= seq![
        opt_str(saved_summary),
        opt_str(saved_transcript),
    ]);
    assert(c.drop_first().drop_first().drop_first() =~= seq![opt_str(saved_transcript)]);
    assert(c.drop_first().drop_first().drop_first().drop_first() =~= Seq::<
        Option<Seq<char>>,
    >::empty());
    proof {
        reveal_with_fuel(first_text, 5);
    }
    if has_text(&fresh_summary) {
        fresh_summary
    } else if has_text(&fresh_transcript) {
        fresh_transcript
    } else if has_text(&saved_summary) {
        saved_summary
    } else if has_text(&saved_transcript) {
        saved_transcript
    } else {
        None
    }
}

/// The phases that options ask for, in their fixed order.
pub open spec fn planned_steps(run_stt: bool, run_summarize: bool, run_embed: bool) -> Seq<
    WorkflowStep,
> {
    (if run_stt {
        seq![WorkflowStep::Transcription]
    } else {
        seq![]
    }) + (if run_summarize {
        seq![WorkflowStep::Summarization]
    } else {
        seq![]
    }) + (if run_embed {
        seq![WorkflowStep::Embedding]
    } else {
        seq![]
    })
}

/// The phases that `options` asks for, in their fixed order.
pub fn plan_steps(options: &WorkflowOptions) -> (r: Vec<WorkflowStep>)
    ensures
        r@ == planned_steps(options.run_stt, options.run_summarize, options.run_embed),
{
    let mut r: Vec<WorkflowStep> = Vec::new();
    if options.run_stt {
        r.push(WorkflowStep::Transcription);
    }
    if options.run_summarize {
        r.push(WorkflowStep::Summarization);
    }
    if options.run_embed {
        r.push(WorkflowStep::Embedding);
    }
    assert(r@ =~= planned_steps(options.run_stt, options.run_summarize, options.run_embed));
    r
}

/// The progress values that one invocation reports, in order, given which phases run,
/// whether the summary phase found text and whether the embedding phase did.
pub open spec fn checkpoints(
    run_stt: bool,
    run_summarize: bool,
    summary_has_text: bool,
    run_embed: bool,
) -> Seq<int> {
    (if run_stt {
        seq![10int, 20, 40, 50]
    } else {
        seq![]
    }) + (if run_summarize {
        if summary_has_text {
            seq![60int, 75, 80]
        } else {
            seq![70int]
        }
    } else {
        seq![]
    }) + (if run_embed {
        seq![90int]
    } else {
        seq![]
    }) + seq![100int]
}

/// The progress values of one invocation, in the order they are reported.
pub fn progress_plan(
    run_stt: bool,
    run_summarize: bool,
    summary_has_text: bool,
    run_embed: bool,
) -> (r: Vec<u8>)
    ensures
        r@.map_values(|p: u8| p as int) == checkpoints(
            run_stt,
            run_summarize,
            summary_has_text,
            run_embed,
        ),
{
    let mut r: Vec<u8> = Vec::new();
    if run_stt {
        r.push(PROGRESS_STT_START);
        r.push(PROGRESS_STT_LOAD);
        r.push(PROGRESS_STT_WRITE);
        r.push(PROGRESS_STT_DONE);
    }
    if run_summarize {
        if summary_has_text {
            r.push(PROGRESS_SUMMARY_START);
            r.push(PROGRESS_SUMMARY_WRITE);
            r.push(PROGRESS_SUMMARY_DONE);
        } else {
            r.push(PROGRESS_SUMMARY_SKIPPED);
        }
    }
    if run_embed {
        r.push(PROGRESS_EMBED_DONE);
    }
    r.push(PROGRESS_DONE);
    assert(r@.map_values(|p: u8| p as int) =~= checkpoints(
        run_stt,
        run_summarize,
        summary_has_text,
        run_embed,
    ));
    r
}

/// Progress never goes back during an invocation, and its last value is 100 whichever
/// phases ran or were skipped.
pub proof fn lemma_progress_monotone(
    run_stt: bool,
    run_summarize: bool,
    summary_has_text: bool,
    run_embed: bool,
)
    ensures
        ({
            let c = checkpoints(run_stt, run_summarize, summary_has_text, run_embed);
            &&& c.len() >= 1
            &&& c[c.len() - 1] == 100
            &&& forall|i: int, j: int| 0 <= i <= j < c.len() ==> c[i] <= c[j]
            &&& forall|i: int| 0 <= i < c.len() ==> 0 <= #[trigger] c[i] <= 100
        }),
{
    let c = checkpoints(run_stt, run_summarize, summary_has_text, run_embed);
    assert forall|k: int| 0 <= k < c.len() - 1 implies #[trigger] c[k] < c[k + 1] by {}
    assert forall|i: int, j: int| 0 <= i <= j < c.len() implies c[i] <= c[j] by {
        lemma_sorted_steps(c, i, j);
    }
}

proof fn lemma_sorted_steps(c: Seq<int>, i: int, j: int)
    requires
        0 <= i <= j < c.len(),
        forall|k: int| 0 <= k < c.len() - 1 ==> #[trigger] c[k] < c[k + 1],
    ensures
        c[i] <= c[j],
    decreases j - i,
{
    if i < j {
        lemma_sorted_steps(c, i, j - 1);
        assert(c[j - 1] < c[j]);
    }
}

/// Name of the transcript file of file `id`.
pub fn transcript_file_name(id: &str) -> (r: String)
    ensures
        r@ == id@ + ".txt"@,
{
    let mut r = id.to_owned();
    r.append(".txt");
    r
}

/// Name of the file that holds the segments of the transcript of file `id`.
pub fn segments_file_name(id: &str) -> (r: String)
    ensures
        r@ == id@ + "_segments.json"@,
{
    let mut r = id.to_owned();
    r.append("_segments.json");
    r
}

/// Name of the summary file of file `id`.
pub fn summary_file_name(id: &str) -> (r: String)
    ensures
        r@ == id@ + "_summary.txt"@,
{
    let mut r = id.to_owned();
    r.append("_summary.txt");
    r
}

/// Name of the one-line-summary file of file `id`.
pub fn one_line_file_name(id: &str) -> (r: String)
    ensures
        r@ == id@ + "_oneline.txt"@,
{
    let mut r = id.to_owned();
    r.append("_oneline.txt");
    r
}

} // verus!

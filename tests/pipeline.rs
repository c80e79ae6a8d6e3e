use recordroute::chunking::{chunk_text, find_break_point, split_paragraphs};
use recordroute::prompts::{chunk_prompt, one_line_prompt, reduce_prompt, BASE_PROMPT, CHUNK_SEPARATOR};
use recordroute::summarize::{clean_one_line, CallKind, SummaryJob};
use recordroute::workflow::{
    embed_input, plan_steps, progress_plan, summary_input, summary_file_name, transcript_file_name,
    WorkflowOptions, WorkflowStep,
};

fn run_to_end(job: &mut SummaryJob) -> Vec<(String, u32, CallKind)> {
    let mut calls = Vec::new();
    let mut k = 0;
    while let Some(call) = job.next_call() {
        calls.push((call.prompt.clone(), call.max_tokens, call.kind));
        job.accept(format!("answer {}", k));
        k += 1;
    }
    calls
}

#[test]
fn chunks_cover_text_without_gaps() {
    let sentence = "This sentence ends here. ";
    let text: String = sentence.repeat(40);
    let n = text.chars().count();
    let chunks = chunk_text(&text, 50, 10);
    assert!(chunks.len() >= 2);
    assert_eq!(chunks[0].start, 0);
    assert_eq!(chunks[chunks.len() - 1].end, n);
    for w in chunks.windows(2) {
        assert!(w[1].start <= w[0].end);
        assert!(w[0].start < w[1].start);
        assert!(w[0].end < w[1].end);
    }
    let chars: Vec<char> = text.chars().collect();
    for c in &chunks {
        let expected: String = chars[c.start..c.end].iter().collect();
        assert_eq!(c.text, expected);
    }
}

#[test]
fn chunks_cut_after_sentence_end() {
    // window of 40 characters; the last fifth begins at 32
    let text = format!("{}. {}", "a".repeat(33), "b".repeat(30));
    let chunks = chunk_text(&text, 10, 0);
    assert_eq!(chunks[0].end, 35);
    assert_eq!(chunks[0].text, format!("{}. ", "a".repeat(33)));
    assert_eq!(chunks[1].start, 35);
}

#[test]
fn chunks_cut_at_window_without_sentence_end() {
    let text = "x".repeat(100);
    let chunks = chunk_text(&text, 10, 2);
    assert_eq!(chunks[0].start, 0);
    assert_eq!(chunks[0].end, 40);
    assert_eq!(chunks[1].start, 32);
    assert_eq!(chunks[1].end, 72);
    assert_eq!(chunks[2].start, 64);
    assert_eq!(chunks[2].end, 100);
    assert_eq!(chunks.len(), 3);
}

#[test]
fn chunking_is_deterministic() {
    let text = "One. Two! Three? Four。 Five！ Six？ ".repeat(30);
    let a = chunk_text(&text, 20, 5);
    let b = chunk_text(&text, 20, 5);
    assert_eq!(a.len(), b.len());
    for (x, y) in a.iter().zip(b.iter()) {
        assert_eq!((x.start, x.end), (y.start, y.end));
        assert_eq!(x.text, y.text);
    }
}

#[test]
fn empty_text_is_one_empty_chunk() {
    let chunks = chunk_text("", 1, 0);
    assert_eq!(chunks.len(), 1);
    assert_eq!((chunks[0].start, chunks[0].end), (0, 0));
    assert_eq!(chunks[0].text, "");
}

#[test]
fn text_at_threshold_is_one_chunk() {
    let text = "z".repeat(40);
    let chunks = chunk_text(&text, 10, 3);
    assert_eq!(chunks.len(), 1);
    assert_eq!(chunks[0].text, text);
}

#[test]
fn break_point_prefers_rightmost_ending() {
    let t: Vec<char> = "aaaaaaaa. bb! cccc".chars().collect();
    // window [0, 18): the last fifth starts at 14; no ending there
    assert_eq!(find_break_point(&t, 0, 18), 18);
    // window [0, 14): last fifth starts at 11; "! " at 12
    assert_eq!(find_break_point(&t, 0, 14), 14);
    let u: Vec<char> = "0123456789。abc".chars().collect();
    assert_eq!(find_break_point(&u, 0, 12), 11);
}

#[test]
fn paragraphs_are_trimmed_and_empty_ones_dropped() {
    let paras = split_paragraphs("  first  \n\n\n\n second\nline \n\n   ");
    assert_eq!(paras, vec!["first".to_string(), "second\nline".to_string()]);
    assert!(split_paragraphs("").is_empty());
}

#[test]
fn prompts_wrap_their_text() {
    let p = chunk_prompt("TEXT");
    assert!(p.starts_with(BASE_PROMPT));
    assert!(p.ends_with("\n---\nTEXT\n---"));
    let r = reduce_prompt("A");
    assert!(r.starts_with(BASE_PROMPT));
    assert!(r.ends_with("\n---\nA\n---"));
    assert!(r.contains("하나의 최종 요약으로 통합하세요"));
    let o = one_line_prompt("S");
    assert!(o.contains("요약:\nS\n\n한 줄 요약:"));
}

#[test]
fn short_text_takes_direct_path() {
    let text = "a".repeat(100);
    let mut job = SummaryJob::new(&text, "llama3.2".to_string());
    let calls = run_to_end(&mut job);
    assert_eq!(calls.len(), 2);
    assert_eq!(calls[0].0, chunk_prompt(&text));
    assert_eq!(calls[0].1, 1000);
    assert_eq!(calls[0].2, CallKind::Structured);
    assert_eq!(calls[1].0, one_line_prompt("answer 0"));
    assert_eq!(calls[1].1, 100);
    assert_eq!(calls[1].2, CallKind::OneLine);
    let summary = job.result().unwrap();
    assert_eq!(summary.text, "answer 0");
    assert_eq!(summary.one_line, "answer 1");
    assert_eq!(summary.model, "llama3.2");
}

#[test]
fn long_text_maps_then_reduces_once() {
    let text = "w".repeat(50_000);
    let mut job = SummaryJob::new(&text, "m".to_string());
    let calls = run_to_end(&mut job);
    let maps = calls.iter().filter(|c| c.1 == 500).count();
    assert!(maps >= 2);
    assert!(maps <= 10);
    // the maps, one reduce of everything, the digest
    assert_eq!(calls.len(), maps + 2);
    let joined: Vec<String> = (0..maps).map(|k| format!("answer {}", k)).collect();
    assert_eq!(calls[maps].0, reduce_prompt(&joined.join(CHUNK_SEPARATOR)));
    assert_eq!(calls[maps + 1].2, CallKind::OneLine);
}

#[test]
fn many_chunks_use_batch_reduce() {
    let text = "w".repeat(100_000);
    let mut job = SummaryJob::new(&text, "m".to_string());
    let calls = run_to_end(&mut job);
    let maps = calls.iter().filter(|c| c.1 == 500).count();
    assert!(maps > 10);
    let batches = (maps + 9) / 10;
    // maps, one reduce per batch, the final reduce, the digest
    assert_eq!(calls.len(), maps + batches + 2);
    let first: Vec<String> = (0..10).map(|k| format!("answer {}", k)).collect();
    assert_eq!(calls[maps].0, reduce_prompt(&first.join(CHUNK_SEPARATOR)));
    let batch_answers: Vec<String> = (maps..maps + batches).map(|k| format!("answer {}", k)).collect();
    assert_eq!(
        calls[maps + batches].0,
        reduce_prompt(&batch_answers.join("\n\n---배치 요약 구분선---\n\n"))
    );
    let summary = job.result().unwrap();
    assert_eq!(summary.text, format!("answer {}", maps + batches));
}

#[test]
fn result_is_none_until_done() {
    let mut job = SummaryJob::new("short", "m".to_string());
    assert!(job.result().is_none());
    job.accept("x".to_string());
    assert!(job.result().is_none());
    job.accept("y".to_string());
    assert!(job.result().is_some());
    assert!(job.next_call().is_none());
}

#[test]
fn one_line_is_trimmed_and_flattened() {
    assert_eq!(clean_one_line("  first\nsecond \n"), "first second");
    assert_eq!(clean_one_line(""), "");
}

#[test]
fn summary_prefers_fresh_transcript() {
    assert_eq!(summary_input(Some("new".into()), Some("old".into())), Some("new".to_string()));
    assert_eq!(summary_input(None, Some("old".into())), Some("old".to_string()));
    assert_eq!(summary_input(Some(String::new()), Some("old".into())), Some("old".to_string()));
    assert_eq!(summary_input(None, None), None);
}

#[test]
fn embedding_prefers_summary_then_transcript() {
    assert_eq!(
        embed_input(Some("s".into()), Some("t".into()), Some("S".into()), Some("T".into())),
        Some("s".to_string())
    );
    assert_eq!(embed_input(None, Some("t".into()), Some("S".into()), None), Some("t".to_string()));
    assert_eq!(embed_input(None, None, Some("S".into()), Some("T".into())), Some("S".to_string()));
    assert_eq!(embed_input(None, None, None, Some("T".into())), Some("T".to_string()));
    assert_eq!(embed_input(None, None, None, None), None);
}

#[test]
fn progress_always_ends_at_hundred() {
    assert_eq!(progress_plan(true, true, true, true), vec![10, 20, 40, 50, 60, 75, 80, 90, 100]);
    assert_eq!(progress_plan(false, true, false, false), vec![70, 100]);
    assert_eq!(progress_plan(false, false, false, false), vec![100]);
}

#[test]
fn steps_follow_fixed_order() {
    let opts = WorkflowOptions {
        run_stt: true,
        run_summarize: false,
        run_embed: true,
        stt_model: None,
        summary_model: None,
        language: None,
    };
    assert_eq!(plan_steps(&opts), vec![WorkflowStep::Transcription, WorkflowStep::Embedding]);
}

#[test]
fn artifact_file_names() {
    assert_eq!(transcript_file_name("abc"), "abc.txt");
    assert_eq!(summary_file_name("abc"), "abc_summary.txt");
}

#[test]
fn large_overlap_can_repeat_an_end() {
    let text = format!("{}. {}", "a".repeat(35), "a".repeat(63));
    let chunks = chunk_text(&text, 10, 9);
    assert_eq!((chunks[0].start, chunks[0].end), (0, 37));
    assert_eq!((chunks[1].start, chunks[1].end), (1, 37));
    assert_eq!(chunks[2].start, 37);
    for w in chunks.windows(2) {
        assert!(w[0].start < w[1].start);
        assert!(w[1].start <= w[0].end);
    }
    assert_eq!(chunks[chunks.len() - 1].end, 100);
}

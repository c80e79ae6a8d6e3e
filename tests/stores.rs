use recordroute::audio::{file_extension, is_supported_audio, is_supported_extension};
use recordroute::config::{join_path, AppConfig};
use recordroute::error::RecordRouteError;
use recordroute::history::{HistoryManager, HistoryRecord};
use recordroute::jobs::{JobManager, TaskInfo, TaskStatus};
use recordroute::llm::{detect_backend, LlamaBackend, LlamaCppClient};
use recordroute::postprocess::{normalize_text, process_segment_text, remove_word_repetitions, should_keep_segment};
use recordroute::vector::{embedding_file_name, passes_date_filter, VectorEntry, VectorIndex, VectorMetadata};

fn record(id: &str) -> HistoryRecord {
    HistoryRecord::with_timestamp(id.to_string(), format!("{}.wav", id), 1_700_000_000)
}

fn store(ids: &[&str]) -> HistoryManager {
    let mut h = HistoryManager::new();
    for id in ids {
        h.add_record(record(id));
    }
    h
}

fn snapshot(h: &HistoryManager) -> Vec<(String, bool, bool, bool, Option<String>, bool)> {
    (0..h.len())
        .map(|i| {
            let r = h.record_at(i);
            (r.id.clone(), r.stt_done, r.summarize_done, r.embed_done, r.stt_path.clone(), r.deleted)
        })
        .collect()
}

#[test]
fn new_record_has_download_path() {
    let r = record("f1");
    assert_eq!(r.file_path, "/download/f1");
    assert!(!r.stt_done && !r.summarize_done && !r.embed_done && !r.deleted);
    let now = HistoryRecord::new("f2".to_string(), "b.mp3".to_string());
    assert_eq!(now.file_path, "/download/f2");
}

#[test]
fn update_of_unknown_id_changes_nothing() {
    let mut h = store(&["a", "b"]);
    let before = snapshot(&h);
    let found = h.update_record("zzz", |mut r| {
        r.stt_done = true;
        r
    });
    assert!(!found);
    assert_eq!(snapshot(&h), before);
    assert!(!h.record_transcript("zzz", "p".to_string()));
    assert_eq!(snapshot(&h), before);
}

#[test]
fn update_changes_first_match_only() {
    let mut h = store(&["a", "b"]);
    let found = h.update_record("b", |mut r| {
        r.filename = "renamed".to_string();
        r
    });
    assert!(found);
    assert_eq!(h.record_at(1).filename, "renamed");
    assert_eq!(h.record_at(0).filename, "a.wav");
}

#[test]
fn delete_hides_but_keeps_record() {
    let mut h = store(&["a", "b", "c"]);
    h.delete_records(&vec!["b".to_string(), "missing".to_string()]);
    let active: Vec<String> = h.get_active_records().into_iter().map(|r| r.id).collect();
    assert_eq!(active, vec!["a".to_string(), "c".to_string()]);
    assert_eq!(h.len(), 3);
    assert!(h.record_at(1).deleted);
    assert!(h.get_by_id("b").is_none());
    assert_eq!(h.get_by_id("c").unwrap().id, "c");
}

#[test]
fn load_fills_missing_download_paths() {
    let mut legacy = record("old");
    legacy.file_path = String::new();
    let mut kept = record("new");
    kept.file_path = "/elsewhere/new".to_string();
    let h = HistoryManager::load(vec![legacy, kept]);
    assert_eq!(h.record_at(0).file_path, "/download/old");
    assert_eq!(h.record_at(1).file_path, "/elsewhere/new");
}

#[test]
fn transcript_rerun_overwrites_in_place() {
    let mut h = store(&["a", "b"]);
    assert!(h.record_transcript("a", "/out/a.txt".to_string()));
    assert!(h.record_transcript("a", "/out/a2.txt".to_string()));
    assert_eq!(h.len(), 2);
    assert_eq!(h.record_at(0).stt_path, Some("/out/a2.txt".to_string()));
    assert!(h.record_at(0).stt_done);
}

#[test]
fn phases_one_after_another() {
    let mut h = store(&["a"]);
    h.record_transcript("a", "/out/a.txt".to_string());
    assert!(h.record_at(0).stt_done && !h.record_at(0).summarize_done);
    h.record_summary("a", "/out/a_summary.txt".to_string(), "line".to_string());
    assert!(h.record_at(0).summarize_done && !h.record_at(0).embed_done);
    assert_eq!(h.record_at(0).one_line_summary, Some("line".to_string()));
    h.record_embedding("a");
    assert!(h.record_at(0).embed_done);
    assert_eq!(h.len(), 1);
}

fn find<'a>(tasks: &'a [TaskInfo], id: &str) -> &'a TaskInfo {
    tasks.iter().find(|t| t.task_id == id).unwrap()
}

#[test]
fn task_lifecycle() {
    let mut jobs = JobManager::new();
    let id = jobs.create_task("stt".to_string(), "file-1".to_string());
    assert_eq!(id.len(), 36);
    let t = jobs.get_tasks();
    assert_eq!(t.len(), 1);
    let task = find(&t, &id);
    assert_eq!(task.status, TaskStatus::Running);
    assert_eq!(task.progress, 0);
    assert_eq!(task.message, "Starting...");
    jobs.update_progress(&id, 40, "half".to_string());
    assert_eq!(find(&jobs.get_tasks(), &id).progress, 40);
    jobs.complete_task(&id);
    let done = jobs.get_tasks();
    assert_eq!(find(&done, &id).status, TaskStatus::Completed);
    assert_eq!(find(&done, &id).progress, 100);
    assert_eq!(find(&done, &id).message, "Completed");
}

#[test]
fn task_failure_and_cancel() {
    let mut jobs = JobManager::new();
    let a = jobs.create_task("summary".to_string(), "f".to_string());
    let b = jobs.create_task("embedding".to_string(), "f".to_string());
    assert_ne!(a, b);
    jobs.fail_task(&a, "boom".to_string());
    assert!(jobs.cancel_task(&b));
    assert!(!jobs.cancel_task("unknown"));
    jobs.update_progress("unknown", 5, "x".to_string());
    let all = jobs.get_tasks();
    assert_eq!(all.len(), 2);
    assert_eq!(find(&all, &a).status, TaskStatus::Failed);
    assert_eq!(find(&all, &a).message, "boom");
    assert_eq!(find(&all, &b).status, TaskStatus::Cancelled);
    assert_eq!(find(&all, &b).message, "Cancelled by user");
}

#[test]
fn inserting_same_task_id_replaces() {
    let mut jobs = JobManager::new();
    let t = |msg: &str| TaskInfo {
        task_id: "t1".to_string(),
        task_type: "stt".to_string(),
        file_uuid: "f".to_string(),
        status: TaskStatus::Running,
        progress: 0,
        message: msg.to_string(),
        started_at: 0,
    };
    jobs.insert_task(t("one"));
    jobs.insert_task(t("two"));
    let all = jobs.get_tasks();
    assert_eq!(all.len(), 1);
    assert_eq!(all[0].message, "two");
}

fn entry(id: &str, ts: Option<i64>) -> VectorEntry {
    VectorEntry {
        doc_id: id.to_string(),
        embedding_path: embedding_file_name(id),
        metadata: VectorMetadata {
            filename: format!("{}.wav", id),
            file_path: format!("/download/{}", id),
            transcript_path: None,
            summary_path: None,
            one_line_summary: None,
            timestamp: ts,
            tags: vec![],
        },
        indexed_at: 0,
        deleted: false,
    }
}

#[test]
fn index_overwrites_and_soft_deletes() {
    let mut idx = VectorIndex::new("nomic-embed-text".to_string(), 768);
    idx.add_entry(entry("a", Some(100)));
    idx.add_entry(entry("b", Some(200)));
    idx.add_entry(entry("a", Some(300)));
    assert_eq!(idx.count(), 2);
    assert_eq!(idx.get_entry("a").unwrap().metadata.timestamp, Some(300));
    idx.delete_entry("a");
    idx.delete_entry("nothing");
    assert_eq!(idx.count(), 1);
    let active: Vec<String> = idx.active_entries().into_iter().map(|e| e.doc_id).collect();
    assert_eq!(active, vec!["b".to_string()]);
    assert!(idx.get_entry("a").unwrap().deleted);
    assert_eq!(idx.get_entry("a").unwrap().embedding_path, "a.json");
    assert_eq!(idx.stats(), (1, "nomic-embed-text".to_string()));
}

#[test]
fn date_filter_excludes_undated_documents() {
    let mut idx = VectorIndex::new("m".to_string(), 3);
    idx.add_entry(entry("dated", Some(150)));
    idx.add_entry(entry("undated", None));
    idx.add_entry(entry("late", Some(500)));
    let ids = |v: Vec<VectorEntry>| v.into_iter().map(|e| e.doc_id).collect::<Vec<_>>();
    assert_eq!(ids(idx.filtered_entries(None, None)).len(), 3);
    assert_eq!(ids(idx.filtered_entries(Some(100), Some(200))), vec!["dated".to_string()]);
    assert_eq!(ids(idx.filtered_entries(Some(100), None)), vec!["dated".to_string(), "late".to_string()]);
    assert_eq!(ids(idx.filtered_entries(None, Some(1000))), vec!["dated".to_string(), "late".to_string()]);
    assert!(!passes_date_filter(None, None, Some(5)));
    assert!(passes_date_filter(None, None, None));
    assert!(passes_date_filter(Some(5), Some(5), Some(5)));
}

#[test]
fn index_rejects_other_model_or_dimension() {
    let idx = VectorIndex::new("m".to_string(), 3);
    assert!(idx.check_compatible("m", 3).is_ok());
    assert!(matches!(idx.check_compatible("other", 3), Err(RecordRouteError::VectorSearch(_))));
    assert!(matches!(idx.check_compatible("m", 4), Err(RecordRouteError::VectorSearch(_))));
}

#[test]
fn config_paths_and_validation() {
    let mut c = AppConfig::default();
    assert_eq!(c.get_db_path("history.json"), "./db/history.json");
    assert_eq!(c.get_upload_path("a.wav"), "./db/uploads/a.wav");
    assert_eq!(c.get_log_path("app.log"), "./db/log/app.log");
    assert_eq!(join_path("dir/", "x"), "dir/x");
    assert_eq!(join_path("dir", "/abs"), "/abs");
    assert_eq!(join_path("", "x"), "x");
    c.server_port = 65535;
    assert_eq!(c.server_bind_address(), "0.0.0.0:65535");
    c.server_port = 7;
    assert_eq!(c.server_bind_address(), "0.0.0.0:7");
    c.server_port = 0;
    assert!(matches!(c.validate(), Err(RecordRouteError::Config(_))));
    let mut d = AppConfig::default();
    d.ollama_base_url = "ftp://x".to_string();
    assert!(matches!(d.validate(), Err(RecordRouteError::Config(_))));
    d.ollama_base_url = "https://x".to_string();
    assert!(d.validate().is_ok());
}

#[test]
fn error_codes_and_messages() {
    assert_eq!(RecordRouteError::invalid_input("x".into()).status_code(), 400);
    assert_eq!(RecordRouteError::Json("x".into()).status_code(), 400);
    assert_eq!(RecordRouteError::not_found("x".into()).status_code(), 404);
    assert_eq!(RecordRouteError::network("x".into()).status_code(), 503);
    for e in [
        RecordRouteError::stt("x".into()),
        RecordRouteError::llm("x".into()),
        RecordRouteError::vector_search("x".into()),
        RecordRouteError::config("x".into()),
        RecordRouteError::file_system("x".into()),
        RecordRouteError::internal("x".into()),
        RecordRouteError::Serialization("x".into()),
        RecordRouteError::Io("x".into()),
    ] {
        assert_eq!(e.status_code(), 500);
    }
    assert_eq!(RecordRouteError::stt("bad".into()).message(), "STT error: bad");
    assert_eq!(RecordRouteError::not_found("f".into()).message(), "Not found: f");
}

#[test]
fn extensions_in_any_case() {
    assert_eq!(file_extension("dir/a.b/c.WAV"), Some("WAV".to_string()));
    assert_eq!(file_extension(".wav"), None);
    assert_eq!(file_extension("noext"), None);
    assert!(is_supported_audio("/x/y/TEST.Mp3"));
    assert!(!is_supported_audio(".wav"));
    assert!(is_supported_extension("webm"));
    assert!(!is_supported_extension("WAV"));
}

#[test]
fn segments_filtered_when_asked() {
    assert!(should_keep_segment("  네  ", false, 1));
    assert!(!should_keep_segment("  네  ", true, 1));
    assert!(!should_keep_segment("ab ab ab ab ab ab ab ab ab ab", true, 1));
    assert!(should_keep_segment("ab ab ab ab ab ab ab ab ab ab", false, 1));
    assert!(!should_keep_segment("1. 2. 3. 4. 5. 6. 7. 8. 9. 10.", true, 1));
    assert!(should_keep_segment("a b c d e f g h i j", true, 1));
    assert!(!should_keep_segment("가", false, 4));
    assert!(should_keep_segment("가나", false, 4));
}

#[test]
fn word_repetitions_removed() {
    let out = remove_word_repetitions("hello hello hello world");
    assert!(!out.contains("hello hello hello"));
    assert_eq!(out, "hello hello world");
    let out = remove_word_repetitions("a a a a a a a a a a");
    assert!(out.split_whitespace().count() < 5);
    assert_eq!(remove_word_repetitions("  single  "), "  single  ");
    assert_eq!(remove_word_repetitions("long x long x long x long x long x long"), "long x long x long x long long");
}

#[test]
fn normalization() {
    assert_eq!(normalize_text("hello....world", true), "hello...world");
    assert_eq!(normalize_text("hello\t world", true), "hello world");
    assert_eq!(normalize_text(" keep....this ", false), "keep....this");
    assert_eq!(process_segment_text("  fine    text  ", true, 2, true), "fine text");
    assert_eq!(process_segment_text("음", true, 1, true), "");
}

#[test]
fn llama_stub() {
    assert_eq!(detect_backend(), LlamaBackend::Cpu);
    let c = LlamaCppClient::new("model.gguf".to_string(), None, 2048, 4).unwrap();
    assert_eq!(c.backend(), LlamaBackend::Cpu);
    assert_eq!(c.model_file(), "model.gguf");
    assert!(matches!(c.generate("hi"), Err(RecordRouteError::Llm(_))));
}

#[test]
fn reset_record_undoes_every_phase() {
    let mut h = store(&["a", "b"]);
    h.record_transcript("a", "t".to_string());
    h.record_summary("a", "s".to_string(), "l".to_string());
    h.record_embedding("a");
    assert!(h.reset_record("a"));
    let r = h.record_at(0);
    assert!(!r.stt_done && !r.summarize_done && !r.embed_done);
    assert!(r.stt_path.is_none() && r.summary_path.is_none() && r.one_line_summary.is_none());
    assert!(!h.reset_record("zzz"));
}

#[test]
fn reset_summary_keeps_transcript() {
    let mut h = store(&["a"]);
    h.record_transcript("a", "t".to_string());
    h.record_summary("a", "s".to_string(), "l".to_string());
    h.record_embedding("a");
    assert!(h.reset_summary_embedding("a"));
    let r = h.record_at(0);
    assert!(r.stt_done && !r.summarize_done && !r.embed_done);
    assert_eq!(r.stt_path, Some("t".to_string()));
    assert!(r.summary_path.is_none() && r.one_line_summary.is_none());
}

#[test]
fn rename_record() {
    let mut h = store(&["a"]);
    assert!(h.update_filename("a", "meeting.wav".to_string()));
    assert_eq!(h.record_at(0).filename, "meeting.wav");
    assert!(!h.update_filename("b", "x".to_string()));
}

#[test]
fn reset_all_skips_deleted_records() {
    let mut h = store(&["a", "b", "c"]);
    for id in ["a", "b", "c"] {
        h.record_transcript(id, "t".to_string());
        h.record_embedding(id);
    }
    h.delete_records(&vec!["b".to_string()]);
    let n = h.reset_all(false, false, true);
    assert_eq!(n, 2);
    assert!(!h.record_at(0).embed_done && h.record_at(1).embed_done && !h.record_at(2).embed_done);
    assert!(h.record_at(0).stt_done);
}

#[test]
fn pending_embedding_selection() {
    let mut h = store(&["a", "b", "c", "d"]);
    h.record_transcript("a", "t".to_string());
    h.record_transcript("b", "t".to_string());
    h.record_embedding("b");
    h.record_transcript("d", "t".to_string());
    h.delete_records(&vec!["d".to_string()]);
    let ids: Vec<String> = h.records_to_embed().into_iter().map(|r| r.id).collect();
    assert_eq!(ids, vec!["a".to_string()]);
}

#[test]
fn existing_transcript_by_download_path() {
    let mut h = store(&["a", "b"]);
    h.record_transcript("a", "t".to_string());
    assert!(h.has_transcript("/download/a"));
    assert!(h.has_transcript("/download//download/a"));
    assert!(h.has_transcript("a"));
    assert!(!h.has_transcript("/download/b"));
    assert!(!h.has_transcript("/download/zzz"));
    assert_eq!(recordroute::history::record_id_of_path("/download//download/x"), "x");
    assert_eq!(recordroute::history::record_id_of_path("/download//x"), "/x");
}

#[test]
fn delete_hides_every_record_with_the_id() {
    let mut h = store(&["a", "b", "a"]);
    h.delete_records(&vec!["a".to_string()]);
    let active: Vec<String> = h.get_active_records().into_iter().map(|r| r.id).collect();
    assert_eq!(active, vec!["b".to_string()]);
    assert!(h.record_at(0).deleted && h.record_at(2).deleted);
    assert!(h.get_by_id("a").is_none());
    assert_eq!(h.len(), 3);
}

#[test]
fn created_task_ids_are_new() {
    let mut jobs = JobManager::new();
    let mut ids = Vec::new();
    for _ in 0..20 {
        ids.push(jobs.create_task("stt".to_string(), "f".to_string()));
    }
    let all = jobs.get_tasks();
    assert_eq!(all.len(), 20);
    for (i, a) in ids.iter().enumerate() {
        for b in &ids[i + 1..] {
            assert_ne!(a, b);
        }
        assert_eq!(find(&all, a).status, TaskStatus::Running);
    }
}

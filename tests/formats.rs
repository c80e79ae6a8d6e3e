use recordroute::api::{default_top_k, embedding_metadata, ProcessRequest, ResetAllTasksRequest, SearchQuery};
use recordroute::history::HistoryRecord;
use recordroute::audio::{parse_wav_header, pcm_samples, WavHeader, WAV_HEADER_LEN};
use recordroute::error::RecordRouteError;
use recordroute::llm::{retry_delay_secs, MAX_ATTEMPTS};
use recordroute::models::{
    digest_matches, download_size_ok, find_model, installed_model_name, models_to_remove, verify_model_data,
    MODEL_BASE_URL,
};

fn wav_bytes(channels: u16, rate: u32, bits: u16, data: &[u8]) -> Vec<u8> {
    let mut b = Vec::new();
    b.extend_from_slice(b"RIFF");
    b.extend_from_slice(&(36 + data.len() as u32).to_le_bytes());
    b.extend_from_slice(b"WAVE");
    b.extend_from_slice(b"fmt ");
    b.extend_from_slice(&16u32.to_le_bytes());
    b.extend_from_slice(&1u16.to_le_bytes());
    b.extend_from_slice(&channels.to_le_bytes());
    b.extend_from_slice(&rate.to_le_bytes());
    b.extend_from_slice(&(rate * channels as u32 * bits as u32 / 8).to_le_bytes());
    b.extend_from_slice(&(channels * bits / 8).to_le_bytes());
    b.extend_from_slice(&bits.to_le_bytes());
    b.extend_from_slice(b"data");
    b.extend_from_slice(&(data.len() as u32).to_le_bytes());
    b.extend_from_slice(data);
    b
}

#[test]
fn wav_header_fields() {
    let b = wav_bytes(2, 44_100, 16, &[]);
    assert_eq!(b.len(), WAV_HEADER_LEN);
    assert_eq!(
        parse_wav_header(&b).unwrap(),
        WavHeader { num_channels: 2, sample_rate: 44_100, bits_per_sample: 16 }
    );
}

#[test]
fn wav_header_rejects_other_files() {
    let mut b = wav_bytes(1, 16_000, 16, &[]);
    b[8] = b'X';
    assert!(matches!(parse_wav_header(&b), Err(RecordRouteError::Stt(_))));
    assert!(matches!(parse_wav_header(&vec![0u8; 10]), Err(RecordRouteError::Stt(_))));
}

#[test]
fn pcm_samples_little_endian() {
    let data = [0x01, 0x00, 0xff, 0x7f, 0x00, 0x80, 0xff, 0xff, 0x05];
    let b = wav_bytes(1, 16_000, 16, &data);
    assert_eq!(pcm_samples(&b, WAV_HEADER_LEN), vec![1, 32767, -32768, -1]);
}

#[test]
fn retries_back_off_then_stop() {
    assert_eq!(MAX_ATTEMPTS, 3);
    assert_eq!(retry_delay_secs(1, MAX_ATTEMPTS), Some(1));
    assert_eq!(retry_delay_secs(2, MAX_ATTEMPTS), Some(2));
    assert_eq!(retry_delay_secs(3, MAX_ATTEMPTS), None);
    assert_eq!(retry_delay_secs(11, 20), Some(1024));
    assert_eq!(retry_delay_secs(64, 65), Some(1 << 63));
}

#[test]
fn process_request_task_type() {
    let mut r = ProcessRequest {
        file_uuid: "f".to_string(),
        run_stt: false,
        run_summarize: true,
        run_embed: true,
        stt_model: None,
        summary_model: Some("m".to_string()),
    };
    assert_eq!(r.task_type().unwrap(), "summary");
    r.run_stt = true;
    assert_eq!(r.task_type().unwrap(), "stt");
    let opts = r.clone().into_options();
    assert!(opts.run_stt && opts.run_summarize && opts.run_embed);
    assert_eq!(opts.summary_model, Some("m".to_string()));
    assert!(opts.language.is_none());
    r.run_stt = false;
    r.run_summarize = false;
    r.run_embed = false;
    assert!(matches!(r.task_type(), Err(RecordRouteError::InvalidInput(_))));
}

#[test]
fn search_query_needs_text() {
    let q = |s: &str| SearchQuery { q: s.to_string(), start: None, end: None, top_k: default_top_k() };
    assert_eq!(default_top_k(), 10);
    assert!(q("meeting").check().is_ok());
    assert!(matches!(q("  \n ").check(), Err(RecordRouteError::InvalidInput(_))));
}

#[test]
fn reset_all_request_selection() {
    let r = |v: &[&str]| ResetAllTasksRequest { tasks: v.iter().map(|s| s.to_string()).collect() };
    assert_eq!(r(&["summary", "stt"]).selection().unwrap(), (true, true, false));
    assert_eq!(r(&["embedding"]).selection().unwrap(), (false, false, true));
    assert!(matches!(r(&["other"]).selection(), Err(RecordRouteError::InvalidInput(_))));
    assert!(matches!(r(&[]).selection(), Err(RecordRouteError::InvalidInput(_))));
}

#[test]
fn metadata_of_record() {
    let mut rec = HistoryRecord::with_timestamp("id9".to_string(), "f.wav".to_string(), 42);
    rec.stt_path = Some("t.txt".to_string());
    rec.tags = vec!["x".to_string()];
    let m = embedding_metadata(&rec);
    assert_eq!(m.filename, "f.wav");
    assert_eq!(m.file_path, "/download/id9");
    assert_eq!(m.transcript_path, Some("t.txt".to_string()));
    assert_eq!(m.summary_path, None);
    assert_eq!(m.timestamp, Some(42));
    assert_eq!(m.tags, vec!["x".to_string()]);
}

#[test]
fn model_lookup_and_files() {
    assert_eq!(find_model("small").unwrap().url, format!("{}/ggml-small.bin", MODEL_BASE_URL));
    assert!(find_model("huge").is_none());
    assert_eq!(installed_model_name("ggml-base.bin"), Some("base".to_string()));
    assert_eq!(installed_model_name("ggml-ggml-x.bin"), Some("x".to_string()));
    assert_eq!(installed_model_name("base.bin"), None);
    assert_eq!(installed_model_name("ggml-base.gguf"), None);
    let installed = vec!["tiny".to_string(), "base".to_string(), "small".to_string()];
    assert_eq!(models_to_remove(&installed, &vec!["base".to_string()]), vec!["tiny".to_string(), "small".to_string()]);
    assert!(download_size_ok(50, 100));
    assert!(!download_size_ok(49, 100));
}

#[test]
fn model_digest_check() {
    let data = b"hello world".to_vec();
    let good = "b94d27b9934d3e08a52e52d7da7dabfac484efe37a5380ee9088f7ace2efcde9";
    assert!(verify_model_data(&data, Some(good)));
    assert!(!verify_model_data(&data, Some(&good.to_uppercase())));
    assert!(!verify_model_data(&b"hello".to_vec(), Some(good)));
    assert!(verify_model_data(&data, None));
    assert!(digest_matches(&vec![0x0f, 0xa0], "0fa0"));
    assert!(!digest_matches(&vec![0x0f, 0xa0], "0fa"));
}

use recordroute::audio::is_supported_audio;
use recordroute::chunking::{chunk_text, find_break_point, split_paragraphs};
use recordroute::config::{parse_log_level, AppConfig, LogLevel};
use recordroute::models::{available_whisper_models, WhisperModel};
use recordroute::postprocess::{normalize_text, remove_word_repetitions, should_keep_segment};

#[test]
fn test_default_config() {
    let config = AppConfig::default();
    assert_eq!(config.server_port, 8080);
    assert_eq!(config.whisper_model, "base");
}

#[test]
fn test_server_bind_address() {
    let config = AppConfig::default();
    assert_eq!(config.server_bind_address(), "0.0.0.0:8080");
}

#[test]
fn test_validate() {
    let config = AppConfig::default();
    assert!(config.validate().is_ok());

    let mut invalid_config = AppConfig::default();
    invalid_config.whisper_model = String::new();
    assert!(invalid_config.validate().is_err());
}

#[test]
fn test_available_models() {
    let models = available_whisper_models();
    assert!(models.len() >= 5);
    assert!(models.iter().any(|m| m.name == "base"));
}

#[test]
fn test_model_filename() {
    let model = WhisperModel {
        name: "base".to_string(),
        size: 142 * 1024 * 1024,
        sha256: None,
        url: "".to_string(),
    };
    assert_eq!(model.filename(), "ggml-base.bin");
}

#[test]
fn test_chunk_short_text() {
    let text = "This is a short text.";
    let chunks = chunk_text(text, 100, 10);
    assert_eq!(chunks.len(), 1);
    assert_eq!(chunks[0].text, text);
}

#[test]
fn test_chunk_long_text() {
    let text = "First sentence. Second sentence. Third sentence. Fourth sentence. Fifth sentence.";
    let chunks = chunk_text(text, 10, 2);
    assert!(chunks.len() > 1);
}

#[test]
fn test_split_paragraphs() {
    let text = "Paragraph 1.\n\nParagraph 2.\n\nParagraph 3.";
    let paras = split_paragraphs(text);
    assert_eq!(paras.len(), 3);
    assert_eq!(paras[0], "Paragraph 1.");
    assert_eq!(paras[1], "Paragraph 2.");
}

#[test]
fn test_is_supported_audio() {
    assert!(is_supported_audio("test.wav"));
    assert!(is_supported_audio("test.mp3"));
    assert!(is_supported_audio("test.m4a"));
    assert!(!is_supported_audio("test.txt"));
    assert!(!is_supported_audio("test.rs"));
}

#[test]
fn test_should_keep_segment() {
    assert!(!should_keep_segment("", false, 2));
    assert!(!should_keep_segment("a", false, 2));
    assert!(should_keep_segment("hello world", false, 2));
    assert!(!should_keep_segment("아", true, 2));
    assert!(!should_keep_segment("이 영상은 자막을 사용하였습니다.", false, 2));
}

#[test]
fn test_parse_log_level() {
    assert_eq!(parse_log_level("trace"), LogLevel::Trace);
    assert_eq!(parse_log_level("debug"), LogLevel::Debug);
    assert_eq!(parse_log_level("info"), LogLevel::Info);
    assert_eq!(parse_log_level("warn"), LogLevel::Warn);
    assert_eq!(parse_log_level("error"), LogLevel::Error);
    assert_eq!(parse_log_level("invalid"), LogLevel::Info);
}

#[test]
fn test_parse_log_level_case_insensitive() {
    assert_eq!(parse_log_level("INFO"), LogLevel::Info);
    assert_eq!(parse_log_level("InFo"), LogLevel::Info);
    assert_eq!(parse_log_level("WARNING"), LogLevel::Warn);
}

#[test]
fn test_remove_word_repetitions() {
    let input = "hello hello hello world";
    let output = remove_word_repetitions(input);
    assert!(!output.contains("hello hello hello"));

    let input = "a a a a a a a a a a";
    let output = remove_word_repetitions(input);
    assert!(output.split_whitespace().count() < 5);
}

#[test]
fn test_normalize_text() {
    let input = "hello....world";
    let output = normalize_text(input, true);
    assert_eq!(output, "hello...world");

    let input = "hello    world";
    let output = normalize_text(input, true);
    assert_eq!(output, "hello world");
}

#[test]
fn break_point_takes_ending_at_start_of_last_fifth() {
    let t: Vec<char> = "aaaaaaaa。b".chars().collect();
    assert_eq!(find_break_point(&t, 0, 10), 9);
    let u: Vec<char> = "aaaaaaaa. b".chars().collect();
    assert_eq!(find_break_point(&u, 0, 10), 10);
    let v: Vec<char> = "aaaaaaaa. bc".chars().collect();
    assert_eq!(find_break_point(&v, 0, 11), 10);
}

#[test]
fn huge_parameters_do_not_overflow() {
    let text = "x".repeat(50);
    let one = chunk_text(&text, usize::MAX, 0);
    assert_eq!(one.len(), 1);
    let many = chunk_text(&text, 5, usize::MAX);
    assert_eq!(many[0].end, 20);
    assert_eq!(many[1].start, 20);
    assert_eq!(many[many.len() - 1].end, 50);
}

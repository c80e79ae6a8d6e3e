//! Processing of recordings into transcripts, summaries and a searchable index: text
//! chunking, map-reduce summarization, the history journal, the task registry, the vector
//! index with soft deletes and date filters, and the decisions of the processing workflow.

pub mod api;
pub mod audio;
pub mod chunking;
pub mod clock;
pub mod config;
pub mod error;
pub mod history;
pub mod jobs;
pub mod llm;
pub mod models;
pub mod postprocess;
pub mod prompts;
pub mod summarize;
pub mod text;
pub mod vector;
pub mod workflow;

use vstd::prelude::*;
use vstd::string::*;

use crate::error::RecordRouteError;
use crate::history::{copy_opt, copy_strings, default_file_path, HistoryRecord, DOWNLOAD_PREFIX};
use crate::vector::VectorMetadata;
use crate::text::{chars_of, contains_text, strs, trim, trim_range};
use crate::workflow::WorkflowOptions;

verus! {

/// A request to run phases on an uploaded file.
#[derive(Debug, Clone)]
pub struct ProcessRequest {
    pub file_uuid: String,
    pub run_stt: bool,
    pub run_summarize: bool,
    pub run_embed: bool,
    pub stt_model: Option<String>,
    pub summary_model: Option<String>,
}

/// The task type that names a request: its first requested phase.
pub open spec fn task_type_of(run_stt: bool, run_summarize: bool, run_embed: bool) -> Option<Seq<char>> {
    if run_stt {
        Some("stt"@)
    } else if run_summarize {
        Some("summary"@)
    } else if run_embed {
        Some("embedding"@)
    } else {
        None
    }
}

impl ProcessRequest {
    /// The type of the task that runs this request; a request of no phase is invalid.
    pub fn task_type(&self) -> (r: Result<String, RecordRouteError>)
        ensures
            match task_type_of(self.run_stt, self.run_summarize, self.run_embed) {
                Some(t) => r is Ok && r->Ok_0@ == t,
                None => r is Err && r->Err_0 is InvalidInput,
            },
    {
        if self.run_stt {
            Ok("stt".to_owned())
        } else if self.run_summarize {
            Ok("summary".to_owned())
        } else if self.run_embed {
            Ok("embedding".to_owned())
        } else {
            Err(RecordRouteError::InvalidInput("No task specified".to_owned()))
        }
    }

    /// The workflow options of this request, with no language hint.
    pub fn into_options(self) -> (r: WorkflowOptions)
        ensures
            r.run_stt == self.run_stt,
            r.run_summarize == self.run_summarize,
            r.run_embed == self.run_embed,
            r.stt_model == self.stt_model,
            r.summary_model == self.summary_model,
            r.language is None,
    {
        WorkflowOptions {
            run_stt: self.run_stt,
            run_summarize: self.run_summarize,
            run_embed: self.run_embed,
            stt_model: self.stt_model,
            summary_model: self.summary_model,
            language: None,
        }
    }
}

/// A request to delete history records.
#[derive(Debug, Clone)]
pub struct DeleteRequest {
    pub ids: Vec<String>,
}

/// A request to cancel a task.
#[derive(Debug, Clone)]
pub struct CancelTaskRequest {
    pub task_id: String,
}

/// Number of results of a search that does not say.
pub fn default_top_k() -> (r: usize)
    ensures
        r == 10,
{
    10
}

/// A search: its text, optional date bounds, and how many results.
#[derive(Debug, Clone)]
pub struct SearchQuery {
    pub q: String,
    pub start: Option<String>,
    pub end: Option<String>,
    pub top_k: usize,
}

impl SearchQuery {
    /// A query is invalid when its text is empty once trimmed.
    pub fn check(&self) -> (r: Result<(), RecordRouteError>)
        ensures
            r is Ok <==> trim(self.q@).len() > 0,
            r is Err ==> r->Err_0 is InvalidInput,
    {
        let c = chars_of(self.q.as_str());
        let (a, b) = trim_range(&c, 0, c.len());
        assert(c@.subrange(0, c@.len() as int) =~= self.q@);
        if a == b {
            Err(RecordRouteError::InvalidInput("Query cannot be empty".to_owned()))
        } else {
            Ok(())
        }
    }
}

/// The answer to an upload.
#[derive(Debug, Clone)]
pub struct UploadResponse {
    pub file_uuid: String,
    pub filename: String,
    pub path: String,
}

/// The answer to a process request.
#[derive(Debug, Clone)]
pub struct ProcessResponse {
    pub task_id: String,
    pub message: String,
}

/// A request to undo phases on every active record, named `stt`, `summary`, `embedding`.
#[derive(Debug, Clone)]
pub struct ResetAllTasksRequest {
    pub tasks: Vec<String>,
}

impl ResetAllTasksRequest {
    /// Which phases to undo, as (transcript, summary, embedding); a request that names
    /// none of them is invalid.
    pub fn selection(&self) -> (r: Result<(bool, bool, bool), RecordRouteError>)
        ensures
            ({
                let t = strs(self.tasks@);
                let sel = (t.contains("stt"@), t.contains("summary"@), t.contains("embedding"@));
                &&& (sel.0 || sel.1 || sel.2) ==> r == Ok::<(bool, bool, bool), RecordRouteError>(sel)
                &&& !(sel.0 || sel.1 || sel.2) ==> r is Err && r->Err_0 is InvalidInput
            }),
    {
        let stt = contains_text(&self.tasks, "stt");
        let summary = contains_text(&self.tasks, "summary");
        let embedding = contains_text(&self.tasks, "embedding");
        if !stt && !summary && !embedding {
            return Err(RecordRouteError::InvalidInput("No tasks specified".to_owned()));
        }
        Ok((stt, summary, embedding))
    }
}

/// The index metadata of a history record: its name, its download path, its artifact
/// paths and digest, its upload time and tags.
pub fn embedding_metadata(r: &HistoryRecord) -> (m: VectorMetadata)
    ensures
        m@.filename == r@.filename,
        m@.file_path == default_file_path(r@.id),
        m@.transcript_path == r@.stt_path,
        m@.summary_path == r@.summary_path,
        m@.one_line_summary == r@.one_line_summary,
        m@.timestamp == Some(r.timestamp),
        m@.tags == r@.tags,
{
    let mut file_path = DOWNLOAD_PREFIX.to_owned();
    file_path.append(r.id.as_str());
    VectorMetadata {
        filename: r.filename.clone(),
        file_path,
        transcript_path: copy_opt(&r.stt_path),
        summary_path: copy_opt(&r.summary_path),
        one_line_summary: copy_opt(&r.one_line_summary),
        timestamp: Some(r.timestamp),
        tags: copy_strings(&r.tags),
    }
}

} // verus!

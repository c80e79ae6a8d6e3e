use vstd::prelude::*;
use vstd::string::*;

verus! {

/// Failures of the pipeline, each with a human-readable message.
#[derive(Debug, Clone, PartialEq, Eq)]
pub enum RecordRouteError {
    Stt(String),
    Llm(String),
    VectorSearch(String),
    Config(String),
    FileSystem(String),
    Network(String),
    Serialization(String),
    InvalidInput(String),
    NotFound(String),
    Internal(String),
    Io(String),
    Json(String),
}

/// How the message of an error of each kind begins.
pub open spec fn error_prefix(e: RecordRouteError) -> Seq<char> {
    match e {
        RecordRouteError::Stt(_) => "STT error: "@,
        RecordRouteError::Llm(_) => "LLM error: "@,
        RecordRouteError::VectorSearch(_) => "Vector search error: "@,
        RecordRouteError::Config(_) => "Configuration error: "@,
        RecordRouteError::FileSystem(_) => "File system error: "@,
        RecordRouteError::Network(_) => "Network error: "@,
        RecordRouteError::Serialization(_) => "Serialization error: "@,
        RecordRouteError::InvalidInput(_) => "Invalid input: "@,
        RecordRouteError::NotFound(_) => "Not found: "@,
        RecordRouteError::Internal(_) => "Internal error: "@,
        RecordRouteError::Io(_) => "IO error: "@,
        RecordRouteError::Json(_) => "JSON error: "@,
    }
}

/// The detail that an error carries.
pub open spec fn error_detail(e: RecordRouteError) -> Seq<char> {
    match e {
        RecordRouteError::Stt(m) => m@,
        RecordRouteError::Llm(m) => m@,
        RecordRouteError::VectorSearch(m) => m@,
        RecordRouteError::Config(m) => m@,
        RecordRouteError::FileSystem(m) => m@,
        RecordRouteError::Network(m) => m@,
        RecordRouteError::Serialization(m) => m@,
        RecordRouteError::InvalidInput(m) => m@,
        RecordRouteError::NotFound(m) => m@,
        RecordRouteError::Internal(m) => m@,
        RecordRouteError::Io(m) => m@,
        RecordRouteError::Json(m) => m@,
    }
}

impl RecordRouteError {
    pub fn stt(msg: String) -> (r: Self)
        ensures
            r == RecordRouteError::Stt(msg),
    {
        RecordRouteError::Stt(msg)
    }

    pub fn llm(msg: String) -> (r: Self)
        ensures
            r == RecordRouteError::Llm(msg),
    {
        RecordRouteError::Llm(msg)
    }

    pub fn vector_search(msg: String) -> (r: Self)
        ensures
            r == RecordRouteError::VectorSearch(msg),
    {
        RecordRouteError::VectorSearch(msg)
    }

    pub fn config(msg: String) -> (r: Self)
        ensures
            r == RecordRouteError::Config(msg),
    {
        RecordRouteError::Config(msg)
    }

    pub fn file_system(msg: String) -> (r: Self)
        ensures
            r == RecordRouteError::FileSystem(msg),
    {
        RecordRouteError::FileSystem(msg)
    }

    pub fn network(msg: String) -> (r: Self)
        ensures
            r == RecordRouteError::Network(msg),
    {
        RecordRouteError::Network(msg)
    }

    pub fn invalid_input(msg: String) -> (r: Self)
        ensures
            r == RecordRouteError::InvalidInput(msg),
    {
        RecordRouteError::InvalidInput(msg)
    }

    pub fn not_found(msg: String) -> (r: Self)
        ensures
            r == RecordRouteError::NotFound(msg),
    {
        RecordRouteError::NotFound(msg)
    }

    pub fn internal(msg: String) -> (r: Self)
        ensures
            r == RecordRouteError::Internal(msg),
    {
        RecordRouteError::Internal(msg)
    }

    /// The HTTP status that reports this error: 400 for bad input or JSON, 404 for a
    /// missing item, 503 for a network failure, 500 otherwise.
    pub fn status_code(&self) -> (r: u16)
        ensures
            r == match self {
                RecordRouteError::InvalidInput(_) => 400u16,
                RecordRouteError::Json(_) => 400u16,
                RecordRouteError::NotFound(_) => 404u16,
                RecordRouteError::Network(_) => 503u16,
                _ => 500u16,
            },
    {
        match self {
            RecordRouteError::InvalidInput(_) => 400,
            RecordRouteError::NotFound(_) => 404,
            RecordRouteError::Network(_) => 503,
            RecordRouteError::Json(_) => 400,
            _ => 500,
        }
    }

    /// The kind of the error, as its message begins.
    pub fn prefix(&self) -> (r: &'static str)
        ensures
            r@ == error_prefix(*self),
    {
        match self {
            RecordRouteError::Stt(_) => "STT error: ",
            RecordRouteError::Llm(_) => "LLM error: ",
            RecordRouteError::VectorSearch(_) => "Vector search error: ",
            RecordRouteError::Config(_) => "Configuration error: ",
            RecordRouteError::FileSystem(_) => "File system error: ",
            RecordRouteError::Network(_) => "Network error: ",
            RecordRouteError::Serialization(_) => "Serialization error: ",
            RecordRouteError::InvalidInput(_) => "Invalid input: ",
            RecordRouteError::NotFound(_) => "Not found: ",
            RecordRouteError::Internal(_) => "Internal error: ",
            RecordRouteError::Io(_) => "IO error: ",
            RecordRouteError::Json(_) => "JSON error: ",
        }
    }

    /// The detail that the error carries.
    pub fn detail(&self) -> (r: &String)
        ensures
            r@ == error_detail(*self),
    {
        match self {
            RecordRouteError::Stt(m) => m,
            RecordRouteError::Llm(m) => m,
            RecordRouteError::VectorSearch(m) => m,
            RecordRouteError::Config(m) => m,
            RecordRouteError::FileSystem(m) => m,
            RecordRouteError::Network(m) => m,
            RecordRouteError::Serialization(m) => m,
            RecordRouteError::InvalidInput(m) => m,
            RecordRouteError::NotFound(m) => m,
            RecordRouteError::Internal(m) => m,
            RecordRouteError::Io(m) => m,
            RecordRouteError::Json(m) => m,
        }
    }

    /// The message shown to users: the kind, then the detail.
    pub fn message(&self) -> (r: String)
        ensures
            r@ == error_prefix(*self) + error_detail(*self),
    {
        let mut r = self.prefix().to_owned();
        r.append(self.detail().as_str());
        r
    }
}

} // verus!

use vstd::prelude::*;
use vstd::string::*;

use crate::error::RecordRouteError;
use crate::text::{chars_of, has_prefix, lower_of, lowercase, same_text, starts_with};

verus! {

/// Settings of the application. Paths are strings in the platform's form.
#[derive(Debug, Clone)]
pub struct AppConfig {
    pub db_base_path: String,
    pub upload_dir: String,
    pub whisper_model: String,
    pub ollama_base_url: String,
    pub embedding_model: String,
    pub llm_model: String,
    pub server_host: String,
    pub server_port: u16,
    pub log_dir: String,
    pub log_level: String,
    pub vector_index_path: String,
}

impl Default for AppConfig {
    fn default() -> (r: AppConfig)
        ensures
            r.db_base_path@ == "./db"@,
            r.upload_dir@ == "./db/uploads"@,
            r.whisper_model@ == "base"@,
            r.ollama_base_url@ == "http://localhost:11434"@,
            r.embedding_model@ == "nomic-embed-text"@,
            r.llm_model@ == "llama3.2:latest"@,
            r.server_host@ == "0.0.0.0"@,
            r.server_port == 8080,
            r.log_dir@ == "./db/log"@,
            r.log_level@ == "info"@,
            r.vector_index_path@ == "./db/vector_index.json"@,
    {
        AppConfig {
            db_base_path: "./db".to_owned(),
            upload_dir: "./db/uploads".to_owned(),
            whisper_model: "base".to_owned(),
            ollama_base_url: "http://localhost:11434".to_owned(),
            embedding_model: "nomic-embed-text".to_owned(),
            llm_model: "llama3.2:latest".to_owned(),
            server_host: "0.0.0.0".to_owned(),
            server_port: 8080,
            log_dir: "./db/log".to_owned(),
            log_level: "info".to_owned(),
            vector_index_path: "./db/vector_index.json".to_owned(),
        }
    }
}

/// `name` under directory `base`: `name` itself when it is absolute or `base` is empty,
/// else the two joined by one separator.
pub open spec fn joined_path(base: Seq<char>, name: Seq<char>) -> Seq<char> {
    if (name.len() > 0 && name[0] == '/') || base.len() == 0 {
        name
    } else if base.last() == '/' {
        base + name
    } else {
        base + seq!['/'] + name
    }
}

/// `name` under directory `base`.
pub fn join_path(base: &str, name: &str) -> (r: String)
    ensures
        r@ == joined_path(base@, name@),
{
    let b = chars_of(base);
    let n = chars_of(name);
    if (n.len() > 0 && n[0] == '/') || b.len() == 0 {
        return name.to_owned();
    }
    let mut r = base.to_owned();
    if b[b.len() - 1] != '/' {
        r.append("/");
        proof {
            reveal_strlit("/");
        }
    }
    r.append(name);
    r
}

/// The decimal digits of `n`, most significant first.
pub open spec fn decimal(n: nat) -> Seq<char>
    decreases n,
{
    if n < 10 {
        seq![digit_char(n)]
    } else {
        decimal(n / 10).push(digit_char(n % 10))
    }
}

pub open spec fn digit_char(d: nat) -> char {
    if d == 0 {
        '0'
    } else if d == 1 {
        '1'
    } else if d == 2 {
        '2'
    } else if d == 3 {
        '3'
    } else if d == 4 {
        '4'
    } else if d == 5 {
        '5'
    } else if d == 6 {
        '6'
    } else if d == 7 {
        '7'
    } else if d == 8 {
        '8'
    } else {
        '9'
    }
}

fn digit_text(d: u16) -> (r: &'static str)
    requires
        d < 10,
    ensures
        r@ == seq![digit_char(d as nat)],
{
    proof {
        reveal_strlit("0");
        reveal_strlit("1");
        reveal_strlit("2");
        reveal_strlit("3");
        reveal_strlit("4");
        reveal_strlit("5");
        reveal_strlit("6");
        reveal_strlit("7");
        reveal_strlit("8");
        reveal_strlit("9");
    }
    if d == 0 {
        "0"
    } else if d == 1 {
        "1"
    } else if d == 2 {
        "2"
    } else if d == 3 {
        "3"
    } else if d == 4 {
        "4"
    } else if d == 5 {
        "5"
    } else if d == 6 {
        "6"
    } else if d == 7 {
        "7"
    } else if d == 8 {
        "8"
    } else {
        "9"
    }
}

/// `n` written in decimal.
pub fn decimal_string(n: u16) -> (r: String)
    ensures
        r@ == decimal(n as nat),
    decreases n,
{
    if n < 10 {
        digit_text(n).to_owned()
    } else {
        let mut r = decimal_string(n / 10);
        r.append(digit_text(n % 10));
        r
    }
}

impl AppConfig {
    /// Path of the database file `alias`.
    pub fn get_db_path(&self, alias: &str) -> (r: String)
        ensures
            r@ == joined_path(self.db_base_path@, alias@),
    {
        join_path(self.db_base_path.as_str(), alias)
    }

    /// Path of the uploaded file `filename`.
    pub fn get_upload_path(&self, filename: &str) -> (r: String)
        ensures
            r@ == joined_path(self.upload_dir@, filename@),
    {
        join_path(self.upload_dir.as_str(), filename)
    }

    /// Path of the log file `filename`.
    pub fn get_log_path(&self, filename: &str) -> (r: String)
        ensures
            r@ == joined_path(self.log_dir@, filename@),
    {
        join_path(self.log_dir.as_str(), filename)
    }

    /// The address the server binds: `host:port`.
    pub fn server_bind_address(&self) -> (r: String)
        ensures
            r@ == self.server_host@ + seq![':'] + decimal(self.server_port as nat),
    {
        let mut r = self.server_host.clone();
        r.append(":");
        proof {
            reveal_strlit(":");
        }
        let port = decimal_string(self.server_port);
        r.append(port.as_str());
        r
    }

    /// Checks the settings: a Whisper model is named, the LLM service URL is http or
    /// https, and the port is not 0.
    pub fn validate(&self) -> (r: Result<(), RecordRouteError>)
        ensures
            r is Ok <==> (self.whisper_model@.len() > 0 && (starts_with(
                self.ollama_base_url@,
                "http://"@,
            ) || starts_with(self.ollama_base_url@, "https://"@)) && self.server_port != 0),
            r is Err ==> r->Err_0 is Config,
    {
        if chars_of(self.whisper_model.as_str()).len() == 0 {
            return Err(RecordRouteError::Config("Whisper model name cannot be empty".to_owned()));
        }
        if !has_prefix(self.ollama_base_url.as_str(), "http://") && !has_prefix(
            self.ollama_base_url.as_str(),
            "https://",
        ) {
            return Err(
                RecordRouteError::Config(
                    "Ollama base URL must start with http:// or https://".to_owned(),
                ),
            );
        }
        if self.server_port == 0 {
            return Err(RecordRouteError::Config("Server port cannot be 0".to_owned()));
        }
        Ok(())
    }
}

/// How much the application logs, least first.
#[derive(Debug, Clone, Copy, PartialEq, Eq)]
pub enum LogLevel {
    Trace,
    Debug,
    Info,
    Warn,
    Error,
}

/// The level a lowercase name stands for: `trace`, `debug`, `info`, `warn` or `warning`,
/// `error`; any other name means `Info`.
pub open spec fn level_named(name: Seq<char>) -> LogLevel {
    if name == "trace"@ {
        LogLevel::Trace
    } else if name == "debug"@ {
        LogLevel::Debug
    } else if name == "warn"@ || name == "warning"@ {
        LogLevel::Warn
    } else if name == "error"@ {
        LogLevel::Error
    } else {
        LogLevel::Info
    }
}

/// The level named by `name`, already in lowercase.
pub fn level_from_lowercase(name: &str) -> (r: LogLevel)
    ensures
        r == level_named(name@),
{
    if same_text(name, "trace") {
        LogLevel::Trace
    } else if same_text(name, "debug") {
        LogLevel::Debug
    } else if same_text(name, "warn") || same_text(name, "warning") {
        LogLevel::Warn
    } else if same_text(name, "error") {
        LogLevel::Error
    } else {
        LogLevel::Info
    }
}

/// The level named by `level`, in any case.
pub fn parse_log_level(level: &str) -> (r: LogLevel)
    ensures
        r == level_named(lower_of(level@)),
{
    let low = lowercase(level);
    level_from_lowercase(low.as_str())
}

} // verus!

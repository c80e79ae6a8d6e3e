use vstd::prelude::*;
use vstd::string::*;

use crate::error::{error_detail, RecordRouteError};

verus! {

pub const STUB_MESSAGE: &'static str = "LlamaCppClient is not fully implemented yet. Use OllamaClient instead.";

/// Attempts of one call to the generation or embedding service before it fails.
pub const MAX_ATTEMPTS: u32 = 3;

/// `2` to the power `n`.
pub open spec fn pow2(n: nat) -> nat
    decreases n,
{
    if n == 0 {
        1
    } else {
        2 * pow2((n - 1) as nat)
    }
}

proof fn lemma_pow2_mono(a: nat, b: nat)
    requires
        a <= b,
    ensures
        pow2(a) <= pow2(b),
    decreases b,
{
    if a < b {
        lemma_pow2_mono(a, (b - 1) as nat);
    }
}

proof fn lemma_pow2_63()
    ensures
        pow2(63) == 0x8000_0000_0000_0000,
{
    reveal_with_fuel(pow2, 64);
}

/// After failed attempt number `attempt` (from 1) of `max_attempts`: the seconds to wait
/// before the next attempt, doubling from 1, or `None` when no attempt is left and the
/// call fails.
pub fn retry_delay_secs(attempt: u32, max_attempts: u32) -> (r: Option<u64>)
    requires
        1 <= attempt <= 64,
    ensures
        attempt >= max_attempts ==> r is None,
        attempt < max_attempts ==> r == Some(pow2((attempt - 1) as nat) as u64),
{
    if attempt >= max_attempts {
        return None;
    }
    let mut d: u64 = 1;
    let mut k: u32 = 1;
    while k < attempt
        invariant
            1 <= k <= attempt <= 64,
            d as nat == pow2((k - 1) as nat),
        decreases attempt - k,
    {
        proof {
            lemma_pow2_mono(k as nat, 63);
            lemma_pow2_63();
        }
        d = d * 2;
        k = k + 1;
    }
    Some(d)
}

/// The compute device that llama.cpp runs on.
#[derive(Debug, Clone, Copy, PartialEq, Eq)]
pub enum LlamaBackend {
    Cuda,
    Metal,
    Cpu,
}

/// The backend of this build: no GPU backend is compiled in, so the CPU.
pub fn detect_backend() -> (r: LlamaBackend)
    ensures
        r == LlamaBackend::Cpu,
{
    LlamaBackend::Cpu
}

/// The reply of the generation service to one request.
#[derive(Debug, Clone)]
pub struct GenerateResponse {
    pub model: String,
    pub response: String,
    pub done: bool,
    pub context: Vec<i32>,
}

/// A text-generation client backed by a local llama.cpp model. Generation is not
/// available yet: every request fails with an LLM error.
#[derive(Debug)]
pub struct LlamaCppClient {
    model_path: String,
    embedding_model_path: Option<String>,
    n_ctx: u32,
    n_threads: u32,
    backend: LlamaBackend,
}

impl LlamaCppClient {
    /// A client for the model file at `model_path`, on the backend of this build.
    pub fn new(
        model_path: String,
        embedding_model_path: Option<String>,
        n_ctx: u32,
        n_threads: u32,
    ) -> (r: Result<LlamaCppClient, RecordRouteError>)
        ensures
            r is Ok,
            r->Ok_0.model_path() == model_path@,
            r->Ok_0.backend_spec() == LlamaBackend::Cpu,
            r->Ok_0.context_size() == n_ctx,
            r->Ok_0.thread_count() == n_threads,
    {
        let backend = detect_backend();
        Ok(LlamaCppClient { model_path, embedding_model_path, n_ctx, n_threads, backend })
    }

    pub closed spec fn model_path(&self) -> Seq<char> {
        self.model_path@
    }

    pub closed spec fn backend_spec(&self) -> LlamaBackend {
        self.backend
    }

    pub closed spec fn context_size(&self) -> u32 {
        self.n_ctx
    }

    pub closed spec fn thread_count(&self) -> u32 {
        self.n_threads
    }

    /// Path of the model file.
    pub fn model_file(&self) -> (r: &String)
        ensures
            r@ == self.model_path(),
    {
        &self.model_path
    }

    /// The backend the client runs on.
    pub fn backend(&self) -> (r: LlamaBackend)
        ensures
            r == self.backend_spec(),
    {
        self.backend
    }

    /// Generation with llama.cpp: not available, always an LLM error.
    pub fn generate(&self, prompt: &str) -> (r: Result<String, RecordRouteError>)
        ensures
            r is Err,
            r->Err_0 is Llm,
            error_detail(r->Err_0) == STUB_MESSAGE@,
    {
        Err(RecordRouteError::Llm(STUB_MESSAGE.to_owned()))
    }
}

} // verus!

//! The language-model backend that answered, as recorded with a run.
use vstd::prelude::*;
use crate::text::{contains, has_prefix, has_substring, starts_with};

verus! {

/// Which gateway answered the introspection prompts.
#[derive(Debug, Clone, Copy, PartialEq, Eq, Structural)]
pub enum LlmProvider {
    /// The offline scripted client (`mock://` endpoints).
    Mock,
    /// An OpenAI endpoint.
    OpenAi,
    /// Anything else: a local Ollama server.
    Ollama,
}

/// The provider behind an endpoint: `mock://…` is the scripted client, an endpoint
/// mentioning `openai` is OpenAI, anything else is Ollama.
pub open spec fn provider_of(endpoint: Seq<char>) -> LlmProvider {
    if has_prefix(endpoint, "mock://"@) {
        LlmProvider::Mock
    } else if has_substring(endpoint, "openai"@) {
        LlmProvider::OpenAi
    } else {
        LlmProvider::Ollama
    }
}

/// Name of a provider as written in run records.
pub open spec fn provider_name(p: LlmProvider) -> Seq<char> {
    match p {
        LlmProvider::Mock => "mock"@,
        LlmProvider::OpenAi => "openai"@,
        LlmProvider::Ollama => "ollama"@,
    }
}

impl LlmProvider {
    /// Name as written in run records.
    pub fn name(self) -> (s: &'static str)
        ensures
            s@ == provider_name(self),
    {
        match self {
            LlmProvider::Mock => "mock",
            LlmProvider::OpenAi => "openai",
            LlmProvider::Ollama => "ollama",
        }
    }
}

/// Classifies the endpoint a client reported.
pub fn provider_of_endpoint(endpoint: &str) -> (p: LlmProvider)
    ensures
        p == provider_of(endpoint@),
{
    if starts_with(endpoint, "mock://") {
        LlmProvider::Mock
    } else if contains(endpoint, "openai") {
        LlmProvider::OpenAi
    } else {
        LlmProvider::Ollama
    }
}

} // verus!

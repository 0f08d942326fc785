//! The Gemini API: the prompt, the request and response bodies, and the
//! analysis that comes back.
pub mod client;
pub mod prompt;
pub mod schema;

pub use schema::{
    AiAnalysis, AnalysisView, GeminiContent, GeminiGenerationConfig, GeminiPart,
    GeminiRequestBody, GeminiResponseBody, GeminiResponseCandidate,
    GeminiResponseCandidateContent, GeminiResponseCandidatePart,
};
pub use prompt::PromptBuilder;
pub use client::GeminiClient;

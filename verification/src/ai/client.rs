//! The Gemini client: where the analysis request goes and what it carries.
use vstd::prelude::*;

use super::prompt::{prompt_spec, PromptBuilder};
use super::schema::{GeminiContent, GeminiGenerationConfig, GeminiPart, GeminiRequestBody};
use crate::diff::engine::DiffResult;
use crate::http::{build_client, ClientError};
use crate::parser::model::ParsedPage;
use crate::text::owned;

verus! {

/// The address of the Gemini models.
pub const GEMINI_MODELS_URL: &'static str = "https://generativelanguage.googleapis.com/v1beta/models/";

/// The answer format asked of the model.
pub const JSON_MIME_TYPE: &'static str = "application/json";

/// Asks a Gemini model to summarise page changes.
#[derive(Clone)]
pub struct GeminiClient {
    client: reqwest::Client,
    api_key: String,
    model: String,
    timeout_secs: u64,
}

/// The address of the `generateContent` call of `model` with `api_key`.
pub open spec fn request_url_spec(model: Seq<char>, api_key: Seq<char>) -> Seq<char> {
    GEMINI_MODELS_URL@ + model + ":generateContent?key="@ + api_key
}

impl GeminiClient {
    /// A client for `model`, authenticated by `api_key`, whose requests time
    /// out after 30 seconds. It fails when the HTTP client cannot be set up.
    pub fn new(api_key: String, model: String) -> (r: Result<GeminiClient, ClientError>)
        ensures
            r matches Ok(c) ==> c.api_key() == api_key@ && c.model() == model@ && c.timeout_secs()
                == 30,
    {
        match build_client(30) {
            Ok((client, timeout_secs)) => Ok(GeminiClient { client, api_key, model, timeout_secs }),
            Err(e) => Err(ClientError::Build(e)),
        }
    }

    /// The request timeout, in seconds, that the client was built with.
    pub closed spec fn timeout_secs(&self) -> u64 {
        self.timeout_secs
    }

    /// The API key.
    pub closed spec fn api_key(&self) -> Seq<char> {
        self.api_key@
    }

    /// The model.
    pub closed spec fn model(&self) -> Seq<char> {
        self.model@
    }

    /// The HTTP client held.
    pub closed spec fn client(&self) -> reqwest::Client {
        self.client
    }

    /// The HTTP client that sends the requests.
    pub fn http_client(&self) -> (r: &reqwest::Client)
        ensures
            *r == self.client(),
    {
        &self.client
    }

    /// The address that the analysis request is posted to.
    pub fn request_url(&self) -> (r: String)
        ensures
            r@ == request_url_spec(self.model(), self.api_key()),
    {
        let mut r = owned(GEMINI_MODELS_URL);
        r.append(self.model.as_str());
        r.append(":generateContent?key=");
        r.append(self.api_key.as_str());
        r
    }

    /// The body of the analysis request: one content of one part, the
    /// prompt for the change, and a JSON answer asked for.
    pub fn request_body(page: &ParsedPage, diff: &DiffResult) -> (r: GeminiRequestBody)
        ensures
            r.contents@.len() == 1,
            r.contents@[0].parts@.len() == 1,
            r.contents@[0].parts@[0].text@ == prompt_spec(page@, diff@),
            r.generation_config matches Some(g) && g.response_mime_type@ == JSON_MIME_TYPE@,
    {
        let prompt = PromptBuilder::build(page, diff);
        let mut parts: Vec<GeminiPart> = Vec::new();
        parts.push(GeminiPart { text: prompt });
        let mut contents: Vec<GeminiContent> = Vec::new();
        contents.push(GeminiContent { parts });
        GeminiRequestBody {
            contents,
            generation_config: Some(
                GeminiGenerationConfig { response_mime_type: owned(JSON_MIME_TYPE) },
            ),
        }
    }
}

} // verus!

//! The request and response bodies of the Gemini API, and the analysis
//! that the model is asked to return.
use vstd::prelude::*;

verus! {

/// One text part of a request.
#[derive(Debug)]
pub struct GeminiPart {
    pub text: String,
}

/// The content of a request.
#[derive(Debug)]
pub struct GeminiContent {
    pub parts: Vec<GeminiPart>,
}

/// How the model is asked to answer.
#[derive(Debug)]
pub struct GeminiGenerationConfig {
    pub response_mime_type: String,
}

/// The body of a `generateContent` request.
#[derive(Debug)]
pub struct GeminiRequestBody {
    pub contents: Vec<GeminiContent>,
    pub generation_config: Option<GeminiGenerationConfig>,
}

/// One part of a candidate answer.
#[derive(Debug)]
pub struct GeminiResponseCandidatePart {
    pub text: Option<String>,
}

/// The content of a candidate answer.
#[derive(Debug)]
pub struct GeminiResponseCandidateContent {
    pub parts: Option<Vec<GeminiResponseCandidatePart>>,
}

/// A candidate answer.
#[derive(Debug)]
pub struct GeminiResponseCandidate {
    pub content: Option<GeminiResponseCandidateContent>,
}

/// The body of a `generateContent` response.
#[derive(Debug)]
pub struct GeminiResponseBody {
    pub candidates: Option<Vec<GeminiResponseCandidate>>,
}

/// The structured summary of a page change.
#[derive(Debug, Clone)]
pub struct AiAnalysis {
    pub title: String,
    pub fait_en_classe: Option<String>,
    pub a_faire: Option<String>,
    pub date_echeance: Option<String>,
    pub evaluation: Option<String>,
    pub nouveaux_documents: Vec<String>,
    pub priority: u8,
}

/// The value of an [`AiAnalysis`].
pub struct AnalysisView {
    pub title: Seq<char>,
    pub fait_en_classe: Option<Seq<char>>,
    pub a_faire: Option<Seq<char>>,
    pub date_echeance: Option<Seq<char>>,
    pub evaluation: Option<Seq<char>>,
    pub nouveaux_documents: Seq<Seq<char>>,
    pub priority: u8,
}

impl View for AiAnalysis {
    type V = AnalysisView;

    open spec fn view(&self) -> AnalysisView {
        AnalysisView {
            title: self.title@,
            fait_en_classe: self.fait_en_classe.deep_view(),
            a_faire: self.a_faire.deep_view(),
            date_echeance: self.date_echeance.deep_view(),
            evaluation: self.evaluation.deep_view(),
            nouveaux_documents: self.nouveaux_documents.deep_view(),
            priority: self.priority,
        }
    }
}

impl Default for AiAnalysis {
    fn default() -> (r: AiAnalysis)
        ensures
            r@.title.len() == 0,
            r@.fait_en_classe is None,
            r@.a_faire is None,
            r@.date_echeance is None,
            r@.evaluation is None,
            r@.nouveaux_documents.len() == 0,
            r@.priority == 0,
    {
        AiAnalysis {
            title: String::new(),
            fait_en_classe: None,
            a_faire: None,
            date_echeance: None,
            evaluation: None,
            nouveaux_documents: Vec::new(),
            priority: 0,
        }
    }
}

/// The text of the first part of the first candidate, where every step of
/// the way is present.
pub open spec fn first_candidate_text(body: &GeminiResponseBody) -> Option<Seq<char>> {
    match &body.candidates {
        Some(cs) => if cs@.len() > 0 {
            match &cs@[0].content {
                Some(content) => match &content.parts {
                    Some(ps) => if ps@.len() > 0 {
                        ps@[0].text.deep_view()
                    } else {
                        None
                    },
                    None => None,
                },
                None => None,
            }
        } else {
            None
        },
        None => None,
    }
}

impl GeminiResponseBody {
    /// The text of the first part of the first candidate, if there is one.
    pub fn first_text(&self) -> (r: Option<String>)
        ensures
            r.deep_view() == first_candidate_text(self),
    {
        match &self.candidates {
            Some(cs) => {
                if cs.len() == 0 {
                    return None;
                }
                match &cs[0].content {
                    Some(content) => match &content.parts {
                        Some(ps) => {
                            if ps.len() == 0 {
                                return None;
                            }
                            match &ps[0].text {
                                Some(t) => Some(t.clone()),
                                None => None,
                            }
                        },
                        None => None,
                    },
                    None => None,
                }
            },
            None => None,
        }
    }
}

} // verus!

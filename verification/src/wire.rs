//! The typed representation of every JSON shape the service emits or accepts.
//!
//! A streamed response item is exactly one of two shapes: a `Chunk` (one
//! generation step) or an `ErrorReport` (a terminal failure report). The two
//! are distinguished structurally, by the presence of an `error` member as
//! against a `candidates` member. Requests reuse the `Part` type, which stays
//! open to variants other than text so that unknown media kinds pass through
//! without breaking decoding.

use vstd::prelude::*;

use crate::json::{Json, JsonV};

verus! {

/// The mathematical form of a content part.
pub ghost enum PartV {
    Text(Seq<char>),
    Other(JsonV),
}

/// One fragment of content: a text delta, or some other media reference kept
/// in its raw form.
#[derive(Debug, PartialEq, Eq)]
pub enum Part {
    Text(String),
    Other(Json),
}

impl View for Part {
    type V = PartV;

    open spec fn view(&self) -> PartV {
        match self {
            Part::Text(s) => PartV::Text(s@),
            Part::Other(j) => PartV::Other(j@),
        }
    }
}

impl DeepView for Part {
    type V = PartV;

    open spec fn deep_view(&self) -> PartV {
        self.view()
    }
}

/// The mathematical form of a candidate's content.
pub ghost struct ContentV {
    pub role: Option<Seq<char>>,
    pub parts: Seq<PartV>,
}

/// The content of a candidate: an optional role label and the parts, in
/// emission order.
#[derive(Debug, PartialEq, Eq)]
pub struct Content {
    pub role: Option<String>,
    pub parts: Vec<Part>,
}

impl View for Content {
    type V = ContentV;

    open spec fn view(&self) -> ContentV {
        ContentV { role: self.role.deep_view(), parts: self.parts.deep_view() }
    }
}

impl DeepView for Content {
    type V = ContentV;

    open spec fn deep_view(&self) -> ContentV {
        self.view()
    }
}

/// The mathematical form of a safety rating.
pub ghost struct SafetyRatingV {
    pub category: Seq<char>,
    pub probability: Seq<char>,
}

/// A category/probability pair attached to a candidate; informational only.
#[derive(Debug, PartialEq, Eq)]
pub struct SafetyRating {
    pub category: String,
    pub probability: String,
}

impl View for SafetyRating {
    type V = SafetyRatingV;

    open spec fn view(&self) -> SafetyRatingV {
        SafetyRatingV { category: self.category@, probability: self.probability@ }
    }
}

impl DeepView for SafetyRating {
    type V = SafetyRatingV;

    open spec fn deep_view(&self) -> SafetyRatingV {
        self.view()
    }
}

/// The mathematical form of a citation source.
pub ghost struct CitationSourceV {
    pub start_index: Option<i64>,
    pub end_index: Option<i64>,
    pub license: Option<Seq<char>>,
    pub uri: Option<Seq<char>>,
}

/// One source attribution span: offsets into the accumulated text, a license
/// string and a URI; informational, passed through unchanged.
#[derive(Debug, PartialEq, Eq)]
pub struct CitationSource {
    pub start_index: Option<i64>,
    pub end_index: Option<i64>,
    pub license: Option<String>,
    pub uri: Option<String>,
}

impl View for CitationSource {
    type V = CitationSourceV;

    open spec fn view(&self) -> CitationSourceV {
        CitationSourceV {
            start_index: self.start_index,
            end_index: self.end_index,
            license: self.license.deep_view(),
            uri: self.uri.deep_view(),
        }
    }
}

impl DeepView for CitationSource {
    type V = CitationSourceV;

    open spec fn deep_view(&self) -> CitationSourceV {
        self.view()
    }
}

/// The mathematical form of citation metadata.
pub ghost struct CitationMetadataV {
    pub citation_sources: Seq<CitationSourceV>,
}

/// The citation sources attached to a candidate, in their listed order.
#[derive(Debug, PartialEq, Eq)]
pub struct CitationMetadata {
    pub citation_sources: Vec<CitationSource>,
}

impl View for CitationMetadata {
    type V = CitationMetadataV;

    open spec fn view(&self) -> CitationMetadataV {
        CitationMetadataV { citation_sources: self.citation_sources.deep_view() }
    }
}

impl DeepView for CitationMetadata {
    type V = CitationMetadataV;

    open spec fn deep_view(&self) -> CitationMetadataV {
        self.view()
    }
}

/// The mathematical form of a finish reason.
pub ghost enum FinishReasonV {
    Stop,
    Safety,
    Recitation,
    MaxTokens,
    Other(Seq<char>),
}

/// Why a candidate's generation ended: a normal stop, a safety block, a
/// recitation block, the length limit, or some other token kept verbatim.
/// A candidate still in progress carries no finish reason at all.
#[derive(Debug, PartialEq, Eq)]
pub enum FinishReason {
    Stop,
    Safety,
    Recitation,
    MaxTokens,
    Other(String),
}

impl View for FinishReason {
    type V = FinishReasonV;

    open spec fn view(&self) -> FinishReasonV {
        match self {
            FinishReason::Stop => FinishReasonV::Stop,
            FinishReason::Safety => FinishReasonV::Safety,
            FinishReason::Recitation => FinishReasonV::Recitation,
            FinishReason::MaxTokens => FinishReasonV::MaxTokens,
            FinishReason::Other(s) => FinishReasonV::Other(s@),
        }
    }
}

impl DeepView for FinishReason {
    type V = FinishReasonV;

    open spec fn deep_view(&self) -> FinishReasonV {
        self.view()
    }
}

/// The mathematical form of a candidate.
pub ghost struct CandidateV {
    pub index: i64,
    pub content: Option<ContentV>,
    pub finish_reason: Option<FinishReasonV>,
    pub safety_ratings: Seq<SafetyRatingV>,
    pub citation_metadata: Option<CitationMetadataV>,
}

/// One alternative generation output within a chunk. Its content is absent
/// when generation was blocked before producing text.
#[derive(Debug, PartialEq, Eq)]
pub struct Candidate {
    pub index: i64,
    pub content: Option<Content>,
    pub finish_reason: Option<FinishReason>,
    pub safety_ratings: Vec<SafetyRating>,
    pub citation_metadata: Option<CitationMetadata>,
}

impl View for Candidate {
    type V = CandidateV;

    open spec fn view(&self) -> CandidateV {
        CandidateV {
            index: self.index,
            content: self.content.deep_view(),
            finish_reason: self.finish_reason.deep_view(),
            safety_ratings: self.safety_ratings.deep_view(),
            citation_metadata: self.citation_metadata.deep_view(),
        }
    }
}

impl DeepView for Candidate {
    type V = CandidateV;

    open spec fn deep_view(&self) -> CandidateV {
        self.view()
    }
}

/// The mathematical form of a chunk.
pub ghost struct ChunkV {
    pub candidates: Seq<CandidateV>,
    pub prompt_feedback: Option<JsonV>,
}

/// One generation step of the streamed response: the candidates, in their
/// listed order, and optional prompt feedback kept in its raw form.
#[derive(Debug, PartialEq, Eq)]
pub struct Chunk {
    pub candidates: Vec<Candidate>,
    pub prompt_feedback: Option<Json>,
}

impl View for Chunk {
    type V = ChunkV;

    open spec fn view(&self) -> ChunkV {
        ChunkV {
            candidates: self.candidates.deep_view(),
            prompt_feedback: self.prompt_feedback.deep_view(),
        }
    }
}

impl DeepView for Chunk {
    type V = ChunkV;

    open spec fn deep_view(&self) -> ChunkV {
        self.view()
    }
}

/// The mathematical form of an error report.
pub ghost struct ErrorReportV {
    pub code: i64,
    pub message: Seq<char>,
    pub status: Seq<char>,
}

/// A terminal failure report from the service: a numeric code, a
/// human-readable message and a status token.
#[derive(Debug, PartialEq, Eq)]
pub struct ErrorReport {
    pub code: i64,
    pub message: String,
    pub status: String,
}

impl View for ErrorReport {
    type V = ErrorReportV;

    open spec fn view(&self) -> ErrorReportV {
        ErrorReportV { code: self.code, message: self.message@, status: self.status@ }
    }
}

impl DeepView for ErrorReport {
    type V = ErrorReportV;

    open spec fn deep_view(&self) -> ErrorReportV {
        self.view()
    }
}

/// The mathematical form of a response item.
pub ghost enum ResponseItemV {
    Chunk(ChunkV),
    Error(ErrorReportV),
}

/// The wire-level union decoded from one raw JSON value: exactly one of the
/// two shapes.
#[derive(Debug, PartialEq, Eq)]
pub enum ResponseItem {
    Chunk(Chunk),
    Error(ErrorReport),
}

impl View for ResponseItem {
    type V = ResponseItemV;

    open spec fn view(&self) -> ResponseItemV {
        match self {
            ResponseItem::Chunk(c) => ResponseItemV::Chunk(c@),
            ResponseItem::Error(e) => ResponseItemV::Error(e@),
        }
    }
}

impl DeepView for ResponseItem {
    type V = ResponseItemV;

    open spec fn deep_view(&self) -> ResponseItemV {
        self.view()
    }
}

/// The mathematical form of a decode failure.
pub ghost enum DecodeFailureV {
    NotAnObject,
    UnknownShape(JsonV),
}

/// Why a raw value matched neither known shape. The offending raw value is
/// kept for diagnosis; a failure never corrupts state built from prior items.
#[derive(Debug, PartialEq, Eq)]
pub enum DecodeFailure {
    NotAnObject,
    UnknownShape(Json),
}

impl View for DecodeFailure {
    type V = DecodeFailureV;

    open spec fn view(&self) -> DecodeFailureV {
        match self {
            DecodeFailure::NotAnObject => DecodeFailureV::NotAnObject,
            DecodeFailure::UnknownShape(j) => DecodeFailureV::UnknownShape(j@),
        }
    }
}

impl DeepView for DecodeFailure {
    type V = DecodeFailureV;

    open spec fn deep_view(&self) -> DecodeFailureV {
        self.view()
    }
}

/// The mathematical form of a classified event.
pub ghost enum EventV {
    TextDelta(Seq<char>),
    ServiceError(ErrorReportV),
}

/// What one well-formed response item means to the caller: a text delta to
/// surface at once, or a service-level error to report distinctly from text.
#[derive(Debug, PartialEq, Eq)]
pub enum Event {
    TextDelta(String),
    ServiceError(ErrorReport),
}

impl View for Event {
    type V = EventV;

    open spec fn view(&self) -> EventV {
        match self {
            Event::TextDelta(s) => EventV::TextDelta(s@),
            Event::ServiceError(e) => EventV::ServiceError(e@),
        }
    }
}

impl DeepView for Event {
    type V = EventV;

    open spec fn deep_view(&self) -> EventV {
        self.view()
    }
}

/// The mathematical form of one request content block.
pub ghost struct RequestContentV {
    pub role: Option<Seq<char>>,
    pub parts: Seq<PartV>,
}

/// One block of the outbound request: an optional role label and its parts.
#[derive(Debug, PartialEq, Eq)]
pub struct RequestContent {
    pub role: Option<String>,
    pub parts: Vec<Part>,
}

impl View for RequestContent {
    type V = RequestContentV;

    open spec fn view(&self) -> RequestContentV {
        RequestContentV { role: self.role.deep_view(), parts: self.parts.deep_view() }
    }
}

impl DeepView for RequestContent {
    type V = RequestContentV;

    open spec fn deep_view(&self) -> RequestContentV {
        self.view()
    }
}

/// The mathematical form of a request.
pub ghost struct RequestV {
    pub contents: Seq<RequestContentV>,
    pub generation_config: Option<JsonV>,
    pub tools: Option<JsonV>,
}

/// The outbound request payload: the content blocks in order, and optional
/// raw configuration values passed through unchanged.
#[derive(Debug, PartialEq, Eq)]
pub struct Request {
    pub contents: Vec<RequestContent>,
    pub generation_config: Option<Json>,
    pub tools: Option<Json>,
}

impl View for Request {
    type V = RequestV;

    open spec fn view(&self) -> RequestV {
        RequestV {
            contents: self.contents.deep_view(),
            generation_config: self.generation_config.deep_view(),
            tools: self.tools.deep_view(),
        }
    }
}

impl DeepView for Request {
    type V = RequestV;

    open spec fn deep_view(&self) -> RequestV {
        self.view()
    }
}

} // verus!

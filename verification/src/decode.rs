//! The chunk decoder: one raw JSON value in, one typed wire-model value out,
//! or a report that the value matches no known shape.
//!
//! The two item shapes are told apart by a structural discriminator resolved
//! once: an object carrying an `error` member must be the error shape, an
//! object without one but with a `candidates` member must be the chunk shape,
//! and anything else fails with the offending raw value attached. Decoding
//! never panics and never falls back to an empty chunk.

use vstd::prelude::*;

use crate::json::{
    get, lemma_views_of_index, lemma_views_of_len, str_eq, views_of, Json, JsonV,
};
use crate::wire::{
    Candidate, CandidateV, Chunk, ChunkV, CitationMetadata, CitationMetadataV, CitationSource,
    CitationSourceV, Content, ContentV, DecodeFailure, DecodeFailureV, ErrorReport, ErrorReportV,
    FinishReason, FinishReasonV, Part, PartV, ResponseItem, ResponseItemV, SafetyRating,
    SafetyRatingV,
};

verus! {

// ---------------------------------------------------------------------------
// The decoded meaning of each shape, as spec functions over the mathematical
// JSON model. The executable decoder below is proved to return exactly these.
// ---------------------------------------------------------------------------
/// One content part: an object with a string `text` member is a text delta;
/// an object whose `text` member is not a string is malformed; anything else
/// is an unknown part kind, kept verbatim as a forward-compatible no-op.
pub open spec fn decode_part(j: JsonV) -> Option<PartV> {
    if j is Obj && j.field("text"@) is Some {
        match j.field("text"@) {
            Some(JsonV::Str(s)) => Some(PartV::Text(s)),
            _ => None,
        }
    } else {
        Some(PartV::Other(j))
    }
}

/// Every element of a `parts` array, in order; fails if any element fails.
pub open spec fn decode_parts(items: Seq<JsonV>) -> Option<Seq<PartV>>
    decreases items.len(),
{
    if items.len() == 0 {
        Some(Seq::empty())
    } else {
        match (decode_part(items[0]), decode_parts(items.drop_first())) {
            (Some(p), Some(rest)) => Some(seq![p] + rest),
            _ => None,
        }
    }
}

/// An optional string member: absent is fine, present must be a string.
pub open spec fn decode_opt_str(f: Option<JsonV>) -> Option<Option<Seq<char>>> {
    match f {
        None => Some(None),
        Some(JsonV::Str(s)) => Some(Some(s)),
        Some(_) => None,
    }
}

/// An optional integer member: absent is fine, present must be a number.
pub open spec fn decode_opt_int(f: Option<JsonV>) -> Option<Option<i64>> {
    match f {
        None => Some(None),
        Some(JsonV::Int(n)) => Some(Some(n)),
        Some(_) => None,
    }
}

/// A candidate's content: an object with a `parts` array and an optional
/// string `role`.
pub open spec fn decode_content(j: JsonV) -> Option<ContentV> {
    if !(j is Obj) {
        None
    } else {
        match (decode_opt_str(j.field("role"@)), j.field("parts"@)) {
            (Some(role), Some(JsonV::Arr(items))) => match decode_parts(items) {
                Some(parts) => Some(ContentV { role, parts }),
                None => None,
            },
            _ => None,
        }
    }
}

/// The finish reason a token names; unknown tokens are kept verbatim.
pub open spec fn finish_reason_of(s: Seq<char>) -> FinishReasonV {
    if s == "STOP"@ {
        FinishReasonV::Stop
    } else if s == "SAFETY"@ {
        FinishReasonV::Safety
    } else if s == "RECITATION"@ {
        FinishReasonV::Recitation
    } else if s == "MAX_TOKENS"@ {
        FinishReasonV::MaxTokens
    } else {
        FinishReasonV::Other(s)
    }
}

/// One safety rating: an object with string `category` and `probability`.
pub open spec fn decode_rating(j: JsonV) -> Option<SafetyRatingV> {
    if !(j is Obj) {
        None
    } else {
        match (j.field("category"@), j.field("probability"@)) {
            (Some(JsonV::Str(category)), Some(JsonV::Str(probability))) => Some(
                SafetyRatingV { category, probability },
            ),
            _ => None,
        }
    }
}

/// Every element of a `safetyRatings` array, in order.
pub open spec fn decode_ratings(items: Seq<JsonV>) -> Option<Seq<SafetyRatingV>>
    decreases items.len(),
{
    if items.len() == 0 {
        Some(Seq::empty())
    } else {
        match (decode_rating(items[0]), decode_ratings(items.drop_first())) {
            (Some(r), Some(rest)) => Some(seq![r] + rest),
            _ => None,
        }
    }
}

/// One citation source: four optional members, offsets numeric, the license
/// and URI strings.
pub open spec fn decode_source(j: JsonV) -> Option<CitationSourceV> {
    if !(j is Obj) {
        None
    } else {
        match (
            decode_opt_int(j.field("startIndex"@)),
            decode_opt_int(j.field("endIndex"@)),
            decode_opt_str(j.field("license"@)),
            decode_opt_str(j.field("uri"@)),
        ) {
            (Some(start_index), Some(end_index), Some(license), Some(uri)) => Some(
                CitationSourceV { start_index, end_index, license, uri },
            ),
            _ => None,
        }
    }
}

/// Every element of a `citationSources` array, in order.
pub open spec fn decode_sources(items: Seq<JsonV>) -> Option<Seq<CitationSourceV>>
    decreases items.len(),
{
    if items.len() == 0 {
        Some(Seq::empty())
    } else {
        match (decode_source(items[0]), decode_sources(items.drop_first())) {
            (Some(s), Some(rest)) => Some(seq![s] + rest),
            _ => None,
        }
    }
}

/// Citation metadata: an object with a `citationSources` array.
pub open spec fn decode_citation(j: JsonV) -> Option<CitationMetadataV> {
    if !(j is Obj) {
        None
    } else {
        match j.field("citationSources"@) {
            Some(JsonV::Arr(items)) => match decode_sources(items) {
                Some(citation_sources) => Some(CitationMetadataV { citation_sources }),
                _ => None,
            },
            _ => None,
        }
    }
}

/// An optional content member: absent means generation was blocked before
/// producing text, which is valid; present must decode.
pub open spec fn decode_opt_content(f: Option<JsonV>) -> Option<Option<ContentV>> {
    match f {
        None => Some(None),
        Some(j) => match decode_content(j) {
            Some(c) => Some(Some(c)),
            None => None,
        },
    }
}

/// An optional finish-reason member: absent means still in progress.
pub open spec fn decode_opt_finish(f: Option<JsonV>) -> Option<Option<FinishReasonV>> {
    match f {
        None => Some(None),
        Some(JsonV::Str(s)) => Some(Some(finish_reason_of(s))),
        Some(_) => None,
    }
}

/// An optional `safetyRatings` member: absent means none were reported.
pub open spec fn decode_opt_ratings(f: Option<JsonV>) -> Option<Seq<SafetyRatingV>> {
    match f {
        None => Some(Seq::empty()),
        Some(JsonV::Arr(items)) => decode_ratings(items),
        Some(_) => None,
    }
}

/// An optional citation member: absent means none was attached.
pub open spec fn decode_opt_citation(f: Option<JsonV>) -> Option<Option<CitationMetadataV>> {
    match f {
        None => Some(None),
        Some(j) => match decode_citation(j) {
            Some(c) => Some(Some(c)),
            None => None,
        },
    }
}

/// One candidate: a required numeric `index`, and the optional content,
/// finish reason, safety ratings and citation metadata.
pub open spec fn decode_candidate(j: JsonV) -> Option<CandidateV> {
    if !(j is Obj) {
        None
    } else {
        match (
            j.field("index"@),
            decode_opt_content(j.field("content"@)),
            decode_opt_finish(j.field("finishReason"@)),
            decode_opt_ratings(j.field("safetyRatings"@)),
            decode_opt_citation(j.field("citationMetadata"@)),
        ) {
            (
                Some(JsonV::Int(index)),
                Some(content),
                Some(finish_reason),
                Some(safety_ratings),
                Some(citation_metadata),
            ) => Some(
                CandidateV { index, content, finish_reason, safety_ratings, citation_metadata },
            ),
            _ => None,
        }
    }
}

/// Every element of a `candidates` array, in order.
pub open spec fn decode_candidates(items: Seq<JsonV>) -> Option<Seq<CandidateV>>
    decreases items.len(),
{
    if items.len() == 0 {
        Some(Seq::empty())
    } else {
        match (decode_candidate(items[0]), decode_candidates(items.drop_first())) {
            (Some(c), Some(rest)) => Some(seq![c] + rest),
            _ => None,
        }
    }
}

/// The chunk shape of an object: a `candidates` array whose every element
/// decodes, and whatever `promptFeedback` value was attached, kept verbatim.
pub open spec fn decode_chunk(j: JsonV) -> Option<ChunkV> {
    match j.field("candidates"@) {
        Some(JsonV::Arr(items)) => match decode_candidates(items) {
            Some(candidates) => Some(
                ChunkV { candidates, prompt_feedback: j.field("promptFeedback"@) },
            ),
            None => None,
        },
        _ => None,
    }
}

/// The error shape of an object: an `error` object member with a numeric
/// `code`, a string `message` and a string `status`.
pub open spec fn decode_error(j: JsonV) -> Option<ErrorReportV> {
    match j.field("error"@) {
        Some(e) => if e is Obj {
            match (e.field("code"@), e.field("message"@), e.field("status"@)) {
                (Some(JsonV::Int(code)), Some(JsonV::Str(message)), Some(JsonV::Str(status))) =>
                    Some(ErrorReportV { code, message, status }),
                _ => None,
            }
        } else {
            None
        },
        None => None,
    }
}

/// A raw value that satisfies the error shape: it is an object, it carries an
/// `error` member, and that member has the required fields.
pub open spec fn is_error_shape(j: JsonV) -> bool {
    &&& j is Obj
    &&& j.field("error"@) is Some
    &&& decode_error(j) is Some
}

/// A raw value that satisfies the chunk shape: it is an object, it carries no
/// `error` member, and its `candidates` member decodes.
pub open spec fn is_chunk_shape(j: JsonV) -> bool {
    &&& j is Obj
    &&& j.field("error"@) is None
    &&& j.field("candidates"@) is Some
    &&& decode_chunk(j) is Some
}

/// A raw value that decodes at all: one shape or the other.
pub open spec fn is_well_formed(j: JsonV) -> bool {
    is_error_shape(j) || is_chunk_shape(j)
}

/// What decoding one raw value yields: the typed item, or the failure.
pub open spec fn decode_item(j: JsonV) -> Result<ResponseItemV, DecodeFailureV> {
    if !(j is Obj) {
        Err(DecodeFailureV::NotAnObject)
    } else if j.field("error"@) is Some {
        match decode_error(j) {
            Some(e) => Ok(ResponseItemV::Error(e)),
            None => Err(DecodeFailureV::UnknownShape(j)),
        }
    } else if j.field("candidates"@) is Some {
        match decode_chunk(j) {
            Some(c) => Ok(ResponseItemV::Chunk(c)),
            None => Err(DecodeFailureV::UnknownShape(j)),
        }
    } else {
        Err(DecodeFailureV::UnknownShape(j))
    }
}

// ---------------------------------------------------------------------------
// Shape exclusivity and determinism.
// ---------------------------------------------------------------------------
/// No raw value satisfies both shapes: the `error` member that the error
/// shape demands is exactly what the chunk shape excludes.
pub proof fn lemma_shapes_exclusive(j: JsonV)
    ensures
        !(is_error_shape(j) && is_chunk_shape(j)),
{
}

/// Every well-formed raw value decodes as exactly one of the two shapes, and
/// decoding fails exactly on the values that satisfy neither.
pub proof fn lemma_decode_exactly_one(j: JsonV)
    ensures
        decode_item(j) is Ok <==> is_well_formed(j),
        (decode_item(j) matches Ok(ResponseItemV::Error(_))) <==> is_error_shape(j),
        (decode_item(j) matches Ok(ResponseItemV::Chunk(_))) <==> is_chunk_shape(j),
{
}

/// Decoding is a pure function of the raw value: the same value, decoded
/// twice, yields structurally identical results.
pub proof fn lemma_decode_deterministic(a: JsonV, b: JsonV)
    requires
        a == b,
    ensures
        decode_item(a) == decode_item(b),
{
}

// ---------------------------------------------------------------------------
// How the element-wise decoders act on concatenated arrays; the executable
// loops below walk an array front to back and lean on these.
// ---------------------------------------------------------------------------
proof fn lemma_decode_parts_append(a: Seq<JsonV>, b: Seq<JsonV>)
    ensures
        decode_parts(a + b) == (match (decode_parts(a), decode_parts(b)) {
            (Some(x), Some(y)) => Some(x + y),
            _ => None::<Seq<PartV>>,
        }),
    decreases a.len(),
{
    if a.len() == 0 {
        assert(a + b =~= b);
        if decode_parts(b) is Some {
            assert(Seq::<PartV>::empty() + decode_parts(b)->Some_0 =~= decode_parts(
                b,
            )->Some_0);
        }
    } else {
        assert((a + b)[0] == a[0]);
        assert((a + b).drop_first() =~= a.drop_first() + b);
        lemma_decode_parts_append(a.drop_first(), b);
        if decode_part(a[0]) is Some && decode_parts(a.drop_first()) is Some && decode_parts(b)
            is Some {
            let p = decode_part(a[0])->Some_0;
            let x = decode_parts(a.drop_first())->Some_0;
            let y = decode_parts(b)->Some_0;
            assert(seq![p] + (x + y) =~= (seq![p] + x) + y);
        }
    }
}

proof fn lemma_decode_ratings_append(a: Seq<JsonV>, b: Seq<JsonV>)
    ensures
        decode_ratings(a + b) == (match (decode_ratings(a), decode_ratings(b)) {
            (Some(x), Some(y)) => Some(x + y),
            _ => None::<Seq<SafetyRatingV>>,
        }),
    decreases a.len(),
{
    if a.len() == 0 {
        assert(a + b =~= b);
        if decode_ratings(b) is Some {
            assert(Seq::<SafetyRatingV>::empty() + decode_ratings(b)->Some_0 =~= decode_ratings(
                b,
            )->Some_0);
        }
    } else {
        assert((a + b)[0] == a[0]);
        assert((a + b).drop_first() =~= a.drop_first() + b);
        lemma_decode_ratings_append(a.drop_first(), b);
        if decode_rating(a[0]) is Some && decode_ratings(a.drop_first()) is Some && decode_ratings(
            b,
        ) is Some {
            let p = decode_rating(a[0])->Some_0;
            let x = decode_ratings(a.drop_first())->Some_0;
            let y = decode_ratings(b)->Some_0;
            assert(seq![p] + (x + y) =~= (seq![p] + x) + y);
        }
    }
}

proof fn lemma_decode_sources_append(a: Seq<JsonV>, b: Seq<JsonV>)
    ensures
        decode_sources(a + b) == (match (decode_sources(a), decode_sources(b)) {
            (Some(x), Some(y)) => Some(x + y),
            _ => None::<Seq<CitationSourceV>>,
        }),
    decreases a.len(),
{
    if a.len() == 0 {
        assert(a + b =~= b);
        if decode_sources(b) is Some {
            assert(Seq::<CitationSourceV>::empty() + decode_sources(b)->Some_0 =~= decode_sources(
                b,
            )->Some_0);
        }
    } else {
        assert((a + b)[0] == a[0]);
        assert((a + b).drop_first() =~= a.drop_first() + b);
        lemma_decode_sources_append(a.drop_first(), b);
        if decode_source(a[0]) is Some && decode_sources(a.drop_first()) is Some && decode_sources(
            b,
        ) is Some {
            let p = decode_source(a[0])->Some_0;
            let x = decode_sources(a.drop_first())->Some_0;
            let y = decode_sources(b)->Some_0;
            assert(seq![p] + (x + y) =~= (seq![p] + x) + y);
        }
    }
}

proof fn lemma_decode_candidates_append(a: Seq<JsonV>, b: Seq<JsonV>)
    ensures
        decode_candidates(a + b) == (match (decode_candidates(a), decode_candidates(b)) {
            (Some(x), Some(y)) => Some(x + y),
            _ => None::<Seq<CandidateV>>,
        }),
    decreases a.len(),
{
    if a.len() == 0 {
        assert(a + b =~= b);
        if decode_candidates(b) is Some {
            assert(Seq::<CandidateV>::empty() + decode_candidates(b)->Some_0
                =~= decode_candidates(b)->Some_0);
        }
    } else {
        assert((a + b)[0] == a[0]);
        assert((a + b).drop_first() =~= a.drop_first() + b);
        lemma_decode_candidates_append(a.drop_first(), b);
        if decode_candidate(a[0]) is Some && decode_candidates(a.drop_first()) is Some
            && decode_candidates(b) is Some {
            let p = decode_candidate(a[0])->Some_0;
            let x = decode_candidates(a.drop_first())->Some_0;
            let y = decode_candidates(b)->Some_0;
            assert(seq![p] + (x + y) =~= (seq![p] + x) + y);
        }
    }
}

// ---------------------------------------------------------------------------
// The executable decoder, proved to return exactly what the spec functions
// above describe.
// ---------------------------------------------------------------------------
/// Decodes one content part.
fn parse_part(j: &Json) -> (r: Option<Part>)
    ensures
        match r {
            Some(p) => decode_part(j@) == Some(p@),
            None => decode_part(j@) is None,
        },
{
    match j {
        Json::Obj(pairs) => match get(pairs, "text") {
            Some(Json::Str(s)) => Some(Part::Text(s.clone())),
            Some(_) => None,
            None => Some(Part::Other(j.deep_clone())),
        },
        _ => Some(Part::Other(j.deep_clone())),
    }
}

/// Decodes every element of a `parts` array, in order.
#[verifier::loop_isolation(false)]
fn parse_parts(items: &Vec<Json>) -> (r: Option<Vec<Part>>)
    ensures
        match r {
            Some(ps) => decode_parts(views_of(items@)) == Some(ps.deep_view()),
            None => decode_parts(views_of(items@)) is None,
        },
{
    broadcast use lemma_views_of_len, lemma_views_of_index;

    let ghost vs = views_of(items@);
    let mut out: Vec<Part> = Vec::new();
    let mut i: usize = 0;
    assert(vs.take(0) =~= Seq::<JsonV>::empty());
    assert(out.deep_view() =~= Seq::<PartV>::empty());
    while i < items.len()
        invariant
            i <= items@.len(),
            out@.len() == i,
            decode_parts(vs.take(i as int)) == Some(out.deep_view()),
        decreases items@.len() - i,
    {
        match parse_part(&items[i]) {
            Some(p) => {
                let ghost prev = out.deep_view();
                let ghost pv = p@;
                out.push(p);
                proof {
                    assert(out.deep_view() =~= prev.push(pv));
                    let b = seq![vs[i as int]];
                    assert(b.drop_first() =~= Seq::<JsonV>::empty());
                    assert(decode_parts(Seq::<JsonV>::empty()) == Some(Seq::<PartV>::empty()));
                    assert(decode_parts(b) == Some(seq![pv] + Seq::<PartV>::empty()));
                    lemma_decode_parts_append(vs.take(i as int), b);
                    assert(vs.take(i as int) + b =~= vs.take(i + 1));
                    assert(prev + (seq![pv] + Seq::<PartV>::empty()) =~= prev.push(pv));
                }
            },
            None => {
                proof {
                    assert(vs.skip(i as int)[0] == vs[i as int]);
                    assert(decode_parts(vs.skip(i as int)) is None);
                    lemma_decode_parts_append(vs.take(i as int), vs.skip(i as int));
                    assert(vs.take(i as int) + vs.skip(i as int) =~= vs);
                }
                return None;
            },
        }
        i += 1;
    }
    assert(vs.take(i as int) =~= vs);
    Some(out)
}

/// Decodes a candidate's content.
fn parse_content(j: &Json) -> (r: Option<Content>)
    ensures
        match r {
            Some(c) => decode_content(j@) == Some(c@),
            None => decode_content(j@) is None,
        },
{
    match j {
        Json::Obj(pairs) => {
            let role: Option<String> = match get(pairs, "role") {
                None => None,
                Some(Json::Str(s)) => Some(s.clone()),
                Some(_) => { return None },
            };
            match get(pairs, "parts") {
                Some(Json::Arr(items)) => match parse_parts(items) {
                    Some(parts) => Some(Content { role, parts }),
                    None => None,
                },
                _ => None,
            }
        },
        _ => None,
    }
}

/// Maps a finish-reason token to its meaning.
fn parse_finish(s: &String) -> (r: FinishReason)
    ensures
        r@ == finish_reason_of(s@),
{
    if str_eq(s.as_str(), "STOP") {
        FinishReason::Stop
    } else if str_eq(s.as_str(), "SAFETY") {
        FinishReason::Safety
    } else if str_eq(s.as_str(), "RECITATION") {
        FinishReason::Recitation
    } else if str_eq(s.as_str(), "MAX_TOKENS") {
        FinishReason::MaxTokens
    } else {
        FinishReason::Other(s.clone())
    }
}

/// Decodes one safety rating.
fn parse_rating(j: &Json) -> (r: Option<SafetyRating>)
    ensures
        match r {
            Some(sr) => decode_rating(j@) == Some(sr@),
            None => decode_rating(j@) is None,
        },
{
    match j {
        Json::Obj(pairs) => {
            let category: String = match get(pairs, "category") {
                Some(Json::Str(s)) => s.clone(),
                _ => { return None },
            };
            match get(pairs, "probability") {
                Some(Json::Str(s)) => Some(SafetyRating { category, probability: s.clone() }),
                _ => None,
            }
        },
        _ => None,
    }
}

/// Decodes every element of a `safetyRatings` array, in order.
#[verifier::loop_isolation(false)]
fn parse_ratings(items: &Vec<Json>) -> (r: Option<Vec<SafetyRating>>)
    ensures
        match r {
            Some(rs) => decode_ratings(views_of(items@)) == Some(rs.deep_view()),
            None => decode_ratings(views_of(items@)) is None,
        },
{
    broadcast use lemma_views_of_len, lemma_views_of_index;

    let ghost vs = views_of(items@);
    let mut out: Vec<SafetyRating> = Vec::new();
    let mut i: usize = 0;
    assert(vs.take(0) =~= Seq::<JsonV>::empty());
    assert(out.deep_view() =~= Seq::<SafetyRatingV>::empty());
    while i < items.len()
        invariant
            i <= items@.len(),
            out@.len() == i,
            decode_ratings(vs.take(i as int)) == Some(out.deep_view()),
        decreases items@.len() - i,
    {
        match parse_rating(&items[i]) {
            Some(sr) => {
                let ghost prev = out.deep_view();
                let ghost pv = sr@;
                out.push(sr);
                proof {
                    assert(out.deep_view() =~= prev.push(pv));
                    let b = seq![vs[i as int]];
                    assert(b.drop_first() =~= Seq::<JsonV>::empty());
                    assert(decode_ratings(Seq::<JsonV>::empty()) == Some(
                        Seq::<SafetyRatingV>::empty(),
                    ));
                    assert(decode_ratings(b) == Some(seq![pv] + Seq::<SafetyRatingV>::empty()));
                    lemma_decode_ratings_append(vs.take(i as int), b);
                    assert(vs.take(i as int) + b =~= vs.take(i + 1));
                    assert(prev + (seq![pv] + Seq::<SafetyRatingV>::empty()) =~= prev.push(pv));
                }
            },
            None => {
                proof {
                    assert(vs.skip(i as int)[0] == vs[i as int]);
                    assert(decode_ratings(vs.skip(i as int)) is None);
                    lemma_decode_ratings_append(vs.take(i as int), vs.skip(i as int));
                    assert(vs.take(i as int) + vs.skip(i as int) =~= vs);
                }
                return None;
            },
        }
        i += 1;
    }
    assert(vs.take(i as int) =~= vs);
    Some(out)
}

/// Decodes one citation source.
fn parse_source(j: &Json) -> (r: Option<CitationSource>)
    ensures
        match r {
            Some(cs) => decode_source(j@) == Some(cs@),
            None => decode_source(j@) is None,
        },
{
    match j {
        Json::Obj(pairs) => {
            let start_index: Option<i64> = match get(pairs, "startIndex") {
                None => None,
                Some(Json::Int(n)) => Some(*n),
                Some(_) => { return None },
            };
            let end_index: Option<i64> = match get(pairs, "endIndex") {
                None => None,
                Some(Json::Int(n)) => Some(*n),
                Some(_) => { return None },
            };
            let license: Option<String> = match get(pairs, "license") {
                None => None,
                Some(Json::Str(s)) => Some(s.clone()),
                Some(_) => { return None },
            };
            match get(pairs, "uri") {
                None => Some(CitationSource { start_index, end_index, license, uri: None }),
                Some(Json::Str(s)) => Some(
                    CitationSource { start_index, end_index, license, uri: Some(s.clone()) },
                ),
                Some(_) => None,
            }
        },
        _ => None,
    }
}

/// Decodes every element of a `citationSources` array, in order.
#[verifier::loop_isolation(false)]
fn parse_sources(items: &Vec<Json>) -> (r: Option<Vec<CitationSource>>)
    ensures
        match r {
            Some(ss) => decode_sources(views_of(items@)) == Some(ss.deep_view()),
            None => decode_sources(views_of(items@)) is None,
        },
{
    broadcast use lemma_views_of_len, lemma_views_of_index;

    let ghost vs = views_of(items@);
    let mut out: Vec<CitationSource> = Vec::new();
    let mut i: usize = 0;
    assert(vs.take(0) =~= Seq::<JsonV>::empty());
    assert(out.deep_view() =~= Seq::<CitationSourceV>::empty());
    while i < items.len()
        invariant
            i <= items@.len(),
            out@.len() == i,
            decode_sources(vs.take(i as int)) == Some(out.deep_view()),
        decreases items@.len() - i,
    {
        match parse_source(&items[i]) {
            Some(cs) => {
                let ghost prev = out.deep_view();
                let ghost pv = cs@;
                out.push(cs);
                proof {
                    assert(out.deep_view() =~= prev.push(pv));
                    let b = seq![vs[i as int]];
                    assert(b.drop_first() =~= Seq::<JsonV>::empty());
                    assert(decode_sources(Seq::<JsonV>::empty()) == Some(
                        Seq::<CitationSourceV>::empty(),
                    ));
                    assert(decode_sources(b) == Some(seq![pv] + Seq::<CitationSourceV>::empty()));
                    lemma_decode_sources_append(vs.take(i as int), b);
                    assert(vs.take(i as int) + b =~= vs.take(i + 1));
                    assert(prev + (seq![pv] + Seq::<CitationSourceV>::empty()) =~= prev.push(pv));
                }
            },
            None => {
                proof {
                    assert(vs.skip(i as int)[0] == vs[i as int]);
                    assert(decode_sources(vs.skip(i as int)) is None);
                    lemma_decode_sources_append(vs.take(i as int), vs.skip(i as int));
                    assert(vs.take(i as int) + vs.skip(i as int) =~= vs);
                }
                return None;
            },
        }
        i += 1;
    }
    assert(vs.take(i as int) =~= vs);
    Some(out)
}

/// Decodes citation metadata.
fn parse_citation(j: &Json) -> (r: Option<CitationMetadata>)
    ensures
        match r {
            Some(cm) => decode_citation(j@) == Some(cm@),
            None => decode_citation(j@) is None,
        },
{
    match j {
        Json::Obj(pairs) => match get(pairs, "citationSources") {
            Some(Json::Arr(items)) => match parse_sources(items) {
                Some(citation_sources) => Some(CitationMetadata { citation_sources }),
                None => None,
            },
            _ => None,
        },
        _ => None,
    }
}

/// Decodes one candidate.
fn parse_candidate(j: &Json) -> (r: Option<Candidate>)
    ensures
        match r {
            Some(c) => decode_candidate(j@) == Some(c@),
            None => decode_candidate(j@) is None,
        },
{
    match j {
        Json::Obj(pairs) => {
            let index: i64 = match get(pairs, "index") {
                Some(Json::Int(n)) => *n,
                _ => { return None },
            };
            let content: Option<Content> = match get(pairs, "content") {
                None => None,
                Some(c) => match parse_content(c) {
                    Some(ct) => Some(ct),
                    None => { return None },
                },
            };
            let finish_reason: Option<FinishReason> = match get(pairs, "finishReason") {
                None => None,
                Some(Json::Str(s)) => Some(parse_finish(s)),
                Some(_) => { return None },
            };
            let safety_ratings: Vec<SafetyRating> = match get(pairs, "safetyRatings") {
                None => {
                    let empty: Vec<SafetyRating> = Vec::new();
                    assert(empty.deep_view() =~= Seq::<SafetyRatingV>::empty());
                    empty
                },
                Some(Json::Arr(items)) => match parse_ratings(items) {
                    Some(rs) => rs,
                    None => { return None },
                },
                Some(_) => { return None },
            };
            let citation_metadata: Option<CitationMetadata> = match get(
                pairs,
                "citationMetadata",
            ) {
                None => None,
                Some(c) => match parse_citation(c) {
                    Some(cm) => Some(cm),
                    None => { return None },
                },
            };
            Some(Candidate { index, content, finish_reason, safety_ratings, citation_metadata })
        },
        _ => None,
    }
}

/// Decodes every element of a `candidates` array, in order.
#[verifier::loop_isolation(false)]
fn parse_candidates(items: &Vec<Json>) -> (r: Option<Vec<Candidate>>)
    ensures
        match r {
            Some(cs) => decode_candidates(views_of(items@)) == Some(cs.deep_view()),
            None => decode_candidates(views_of(items@)) is None,
        },
{
    broadcast use lemma_views_of_len, lemma_views_of_index;

    let ghost vs = views_of(items@);
    let mut out: Vec<Candidate> = Vec::new();
    let mut i: usize = 0;
    assert(vs.take(0) =~= Seq::<JsonV>::empty());
    assert(out.deep_view() =~= Seq::<CandidateV>::empty());
    while i < items.len()
        invariant
            i <= items@.len(),
            out@.len() == i,
            decode_candidates(vs.take(i as int)) == Some(out.deep_view()),
        decreases items@.len() - i,
    {
        match parse_candidate(&items[i]) {
            Some(c) => {
                let ghost prev = out.deep_view();
                let ghost pv = c@;
                out.push(c);
                proof {
                    assert(out.deep_view() =~= prev.push(pv));
                    let b = seq![vs[i as int]];
                    assert(b.drop_first() =~= Seq::<JsonV>::empty());
                    assert(decode_candidates(Seq::<JsonV>::empty()) == Some(
                        Seq::<CandidateV>::empty(),
                    ));
                    assert(decode_candidates(b) == Some(seq![pv] + Seq::<CandidateV>::empty()));
                    lemma_decode_candidates_append(vs.take(i as int), b);
                    assert(vs.take(i as int) + b =~= vs.take(i + 1));
                    assert(prev + (seq![pv] + Seq::<CandidateV>::empty()) =~= prev.push(pv));
                }
            },
            None => {
                proof {
                    assert(vs.skip(i as int)[0] == vs[i as int]);
                    assert(decode_candidates(vs.skip(i as int)) is None);
                    lemma_decode_candidates_append(vs.take(i as int), vs.skip(i as int));
                    assert(vs.take(i as int) + vs.skip(i as int) =~= vs);
                }
                return None;
            },
        }
        i += 1;
    }
    assert(vs.take(i as int) =~= vs);
    Some(out)
}

/// Decodes the chunk shape of an object value.
fn parse_chunk(j: &Json) -> (r: Option<Chunk>)
    requires
        j@ is Obj,
    ensures
        match r {
            Some(c) => decode_chunk(j@) == Some(c@),
            None => decode_chunk(j@) is None,
        },
{
    match j {
        Json::Obj(pairs) => match get(pairs, "candidates") {
            Some(Json::Arr(items)) => match parse_candidates(items) {
                Some(candidates) => {
                    let prompt_feedback: Option<Json> = match get(pairs, "promptFeedback") {
                        Some(v) => Some(v.deep_clone()),
                        None => None,
                    };
                    Some(Chunk { candidates, prompt_feedback })
                },
                None => None,
            },
            _ => None,
        },
        _ => None,
    }
}

/// Decodes the error shape of an object value.
fn parse_error(j: &Json) -> (r: Option<ErrorReport>)
    requires
        j@ is Obj,
    ensures
        match r {
            Some(e) => decode_error(j@) == Some(e@),
            None => decode_error(j@) is None,
        },
{
    match j {
        Json::Obj(pairs) => match get(pairs, "error") {
            Some(Json::Obj(epairs)) => {
                let code: i64 = match get(epairs, "code") {
                    Some(Json::Int(n)) => *n,
                    _ => { return None },
                };
                let message: String = match get(epairs, "message") {
                    Some(Json::Str(s)) => s.clone(),
                    _ => { return None },
                };
                match get(epairs, "status") {
                    Some(Json::Str(s)) => Some(
                        ErrorReport { code, message, status: s.clone() },
                    ),
                    _ => None,
                }
            },
            Some(_) => None,
            None => None,
        },
        _ => None,
    }
}

/// Decodes one raw JSON value into a typed response item, or reports that it
/// matches no known shape. The offending raw value rides along with an
/// unknown-shape failure so the caller can reproduce the problem.
pub fn decode(raw: &Json) -> (r: Result<ResponseItem, DecodeFailure>)
    ensures
        match r {
            Ok(item) => decode_item(raw@) == Ok::<ResponseItemV, DecodeFailureV>(item@),
            Err(f) => decode_item(raw@) == Err::<ResponseItemV, DecodeFailureV>(f@),
        },
{
    match raw {
        Json::Obj(pairs) => {
            if get(pairs, "error").is_some() {
                match parse_error(raw) {
                    Some(e) => Ok(ResponseItem::Error(e)),
                    None => Err(DecodeFailure::UnknownShape(raw.deep_clone())),
                }
            } else if get(pairs, "candidates").is_some() {
                match parse_chunk(raw) {
                    Some(c) => Ok(ResponseItem::Chunk(c)),
                    None => Err(DecodeFailure::UnknownShape(raw.deep_clone())),
                }
            } else {
                Err(DecodeFailure::UnknownShape(raw.deep_clone()))
            }
        },
        _ => Err(DecodeFailure::NotAnObject),
    }
}

} // verus!

//! Re-serialization of wire-model values into raw JSON, and the encoding of
//! outbound requests.
//!
//! Decoded values carry everything the wire carried — unknown part kinds,
//! citation spans, prompt feedback — so they can be turned back into JSON
//! values without loss. The request encoder produces the payload shape the
//! service accepts: the content blocks in order, each with its role label
//! and parts, plus whatever raw configuration values ride along.

use vstd::prelude::*;

use crate::json::{
    lemma_member_views_of_index, lemma_member_views_of_len, lemma_views_of_index,
    lemma_views_of_len, views_of, Json, JsonV,
};
use crate::wire::{
    Candidate, CandidateV, Chunk, ChunkV, CitationMetadata, CitationMetadataV, CitationSource,
    CitationSourceV, Content, ContentV, ErrorReport, ErrorReportV, FinishReason, FinishReasonV,
    Part, PartV, Request, RequestContent, RequestContentV, RequestV, ResponseItem, ResponseItemV,
    SafetyRating, SafetyRatingV,
};

verus! {

/// A member present only when the value is.
pub open spec fn opt_member(key: Seq<char>, v: Option<JsonV>) -> Seq<(Seq<char>, JsonV)> {
    match v {
        Some(j) => seq![(key, j)],
        None => Seq::empty(),
    }
}

/// An optional string value as an optional JSON member.
pub open spec fn opt_str_json(v: Option<Seq<char>>) -> Option<JsonV> {
    match v {
        Some(s) => Some(JsonV::Str(s)),
        None => None,
    }
}

/// An optional integer value as an optional JSON member.
pub open spec fn opt_int_json(v: Option<i64>) -> Option<JsonV> {
    match v {
        Some(n) => Some(JsonV::Int(n)),
        None => None,
    }
}

/// The JSON form of one content part.
pub open spec fn part_json(p: PartV) -> JsonV {
    match p {
        PartV::Text(s) => JsonV::Obj(seq![("text"@, JsonV::Str(s))]),
        PartV::Other(j) => j,
    }
}

/// The JSON forms of a sequence of parts, in order.
pub open spec fn parts_json(ps: Seq<PartV>) -> Seq<JsonV>
    decreases ps.len(),
{
    if ps.len() == 0 {
        Seq::empty()
    } else {
        seq![part_json(ps[0])] + parts_json(ps.drop_first())
    }
}

/// The JSON form of a candidate's content.
pub open spec fn content_json(c: ContentV) -> JsonV {
    JsonV::Obj(
        seq![("parts"@, JsonV::Arr(parts_json(c.parts)))] + opt_member(
            "role"@,
            opt_str_json(c.role),
        ),
    )
}

/// The token that names a finish reason.
pub open spec fn finish_token(f: FinishReasonV) -> Seq<char> {
    match f {
        FinishReasonV::Stop => "STOP"@,
        FinishReasonV::Safety => "SAFETY"@,
        FinishReasonV::Recitation => "RECITATION"@,
        FinishReasonV::MaxTokens => "MAX_TOKENS"@,
        FinishReasonV::Other(s) => s,
    }
}

/// The JSON form of one safety rating.
pub open spec fn rating_json(r: SafetyRatingV) -> JsonV {
    JsonV::Obj(
        seq![("category"@, JsonV::Str(r.category)), ("probability"@, JsonV::Str(r.probability))],
    )
}

/// The JSON forms of a sequence of safety ratings, in order.
pub open spec fn ratings_json(rs: Seq<SafetyRatingV>) -> Seq<JsonV>
    decreases rs.len(),
{
    if rs.len() == 0 {
        Seq::empty()
    } else {
        seq![rating_json(rs[0])] + ratings_json(rs.drop_first())
    }
}

/// The JSON form of one citation source.
pub open spec fn source_json(s: CitationSourceV) -> JsonV {
    JsonV::Obj(
        opt_member("startIndex"@, opt_int_json(s.start_index)) + opt_member(
            "endIndex"@,
            opt_int_json(s.end_index),
        ) + opt_member("license"@, opt_str_json(s.license)) + opt_member(
            "uri"@,
            opt_str_json(s.uri),
        ),
    )
}

/// The JSON forms of a sequence of citation sources, in order.
pub open spec fn sources_json(ss: Seq<CitationSourceV>) -> Seq<JsonV>
    decreases ss.len(),
{
    if ss.len() == 0 {
        Seq::empty()
    } else {
        seq![source_json(ss[0])] + sources_json(ss.drop_first())
    }
}

/// The JSON form of citation metadata.
pub open spec fn citation_json(cm: CitationMetadataV) -> JsonV {
    JsonV::Obj(seq![("citationSources"@, JsonV::Arr(sources_json(cm.citation_sources)))])
}

/// The JSON form of one candidate.
pub open spec fn candidate_json(c: CandidateV) -> JsonV {
    JsonV::Obj(
        seq![("index"@, JsonV::Int(c.index))] + opt_member(
            "content"@,
            match c.content {
                Some(ct) => Some(content_json(ct)),
                None => None,
            },
        ) + opt_member(
            "finishReason"@,
            match c.finish_reason {
                Some(f) => Some(JsonV::Str(finish_token(f))),
                None => None,
            },
        ) + seq![("safetyRatings"@, JsonV::Arr(ratings_json(c.safety_ratings)))] + opt_member(
            "citationMetadata"@,
            match c.citation_metadata {
                Some(cm) => Some(citation_json(cm)),
                None => None,
            },
        ),
    )
}

/// The JSON forms of a sequence of candidates, in order.
pub open spec fn candidates_json(cs: Seq<CandidateV>) -> Seq<JsonV>
    decreases cs.len(),
{
    if cs.len() == 0 {
        Seq::empty()
    } else {
        seq![candidate_json(cs[0])] + candidates_json(cs.drop_first())
    }
}

/// The JSON form of one chunk.
pub open spec fn chunk_json(ch: ChunkV) -> JsonV {
    JsonV::Obj(
        seq![("candidates"@, JsonV::Arr(candidates_json(ch.candidates)))] + opt_member(
            "promptFeedback"@,
            ch.prompt_feedback,
        ),
    )
}

/// The JSON form of an error report.
pub open spec fn error_json(e: ErrorReportV) -> JsonV {
    JsonV::Obj(
        seq![
            (
                "error"@,
                JsonV::Obj(
                    seq![
                        ("code"@, JsonV::Int(e.code)),
                        ("message"@, JsonV::Str(e.message)),
                        ("status"@, JsonV::Str(e.status)),
                    ],
                ),
            ),
        ],
    )
}

/// The JSON form of one response item.
pub open spec fn item_json(item: ResponseItemV) -> JsonV {
    match item {
        ResponseItemV::Chunk(c) => chunk_json(c),
        ResponseItemV::Error(e) => error_json(e),
    }
}

/// The JSON form of one request content block.
pub open spec fn request_content_json(rc: RequestContentV) -> JsonV {
    JsonV::Obj(
        opt_member("role"@, opt_str_json(rc.role)) + seq![
            ("parts"@, JsonV::Arr(parts_json(rc.parts))),
        ],
    )
}

/// The JSON forms of a sequence of request content blocks, in order.
pub open spec fn request_contents_json(rcs: Seq<RequestContentV>) -> Seq<JsonV>
    decreases rcs.len(),
{
    if rcs.len() == 0 {
        Seq::empty()
    } else {
        seq![request_content_json(rcs[0])] + request_contents_json(rcs.drop_first())
    }
}

/// The JSON form of the outbound request payload.
pub open spec fn request_json(r: RequestV) -> JsonV {
    JsonV::Obj(
        seq![("contents"@, JsonV::Arr(request_contents_json(r.contents)))] + opt_member(
            "generationConfig"@,
            r.generation_config,
        ) + opt_member("tools"@, r.tools),
    )
}

proof fn lemma_parts_json_append(a: Seq<PartV>, b: Seq<PartV>)
    ensures
        parts_json(a + b) == parts_json(a) + parts_json(b),
    decreases a.len(),
{
    if a.len() == 0 {
        assert(a + b =~= b);
        assert(Seq::<JsonV>::empty() + parts_json(b) =~= parts_json(b));
    } else {
        assert((a + b)[0] == a[0]);
        assert((a + b).drop_first() =~= a.drop_first() + b);
        lemma_parts_json_append(a.drop_first(), b);
        assert(seq![part_json(a[0])] + (parts_json(a.drop_first()) + parts_json(b)) =~= (
        seq![part_json(a[0])] + parts_json(a.drop_first())) + parts_json(b));
    }
}

proof fn lemma_ratings_json_append(a: Seq<SafetyRatingV>, b: Seq<SafetyRatingV>)
    ensures
        ratings_json(a + b) == ratings_json(a) + ratings_json(b),
    decreases a.len(),
{
    if a.len() == 0 {
        assert(a + b =~= b);
        assert(Seq::<JsonV>::empty() + ratings_json(b) =~= ratings_json(b));
    } else {
        assert((a + b)[0] == a[0]);
        assert((a + b).drop_first() =~= a.drop_first() + b);
        lemma_ratings_json_append(a.drop_first(), b);
        assert(seq![rating_json(a[0])] + (ratings_json(a.drop_first()) + ratings_json(b)) =~= (
        seq![rating_json(a[0])] + ratings_json(a.drop_first())) + ratings_json(b));
    }
}

proof fn lemma_sources_json_append(a: Seq<CitationSourceV>, b: Seq<CitationSourceV>)
    ensures
        sources_json(a + b) == sources_json(a) + sources_json(b),
    decreases a.len(),
{
    if a.len() == 0 {
        assert(a + b =~= b);
        assert(Seq::<JsonV>::empty() + sources_json(b) =~= sources_json(b));
    } else {
        assert((a + b)[0] == a[0]);
        assert((a + b).drop_first() =~= a.drop_first() + b);
        lemma_sources_json_append(a.drop_first(), b);
        assert(seq![source_json(a[0])] + (sources_json(a.drop_first()) + sources_json(b)) =~= (
        seq![source_json(a[0])] + sources_json(a.drop_first())) + sources_json(b));
    }
}

proof fn lemma_candidates_json_append(a: Seq<CandidateV>, b: Seq<CandidateV>)
    ensures
        candidates_json(a + b) == candidates_json(a) + candidates_json(b),
    decreases a.len(),
{
    if a.len() == 0 {
        assert(a + b =~= b);
        assert(Seq::<JsonV>::empty() + candidates_json(b) =~= candidates_json(b));
    } else {
        assert((a + b)[0] == a[0]);
        assert((a + b).drop_first() =~= a.drop_first() + b);
        lemma_candidates_json_append(a.drop_first(), b);
        assert(seq![candidate_json(a[0])] + (candidates_json(a.drop_first()) + candidates_json(b))
            =~= (seq![candidate_json(a[0])] + candidates_json(a.drop_first())) + candidates_json(
            b,
        ));
    }
}

proof fn lemma_request_contents_json_append(a: Seq<RequestContentV>, b: Seq<RequestContentV>)
    ensures
        request_contents_json(a + b) == request_contents_json(a) + request_contents_json(b),
    decreases a.len(),
{
    if a.len() == 0 {
        assert(a + b =~= b);
        assert(Seq::<JsonV>::empty() + request_contents_json(b) =~= request_contents_json(b));
    } else {
        assert((a + b)[0] == a[0]);
        assert((a + b).drop_first() =~= a.drop_first() + b);
        lemma_request_contents_json_append(a.drop_first(), b);
        assert(seq![request_content_json(a[0])] + (request_contents_json(a.drop_first())
            + request_contents_json(b)) =~= (seq![request_content_json(a[0])]
            + request_contents_json(a.drop_first())) + request_contents_json(b));
    }
}

/// Encodes one content part.
fn encode_part(p: &Part) -> (r: Json)
    ensures
        r@ == part_json(p@),
{
    match p {
        Part::Text(s) => {
            let mut members: Vec<(String, Json)> = Vec::new();
            members.push((String::from_str("text"), Json::Str(s.clone())));
            let ghost msv = members@;
            let r = Json::Obj(members);
            proof {
                broadcast use lemma_member_views_of_len, lemma_member_views_of_index;

                assert(r@ == JsonV::Obj(crate::json::member_views_of(msv)));
                assert(msv.len() == 1);
                assert(msv[0].0@ == "text"@);
                assert(msv[0].1@ == JsonV::Str(s@));
                assert(r@->Obj_0 =~~= part_json(p@)->Obj_0);
            }
            r
        },
        Part::Other(j) => j.deep_clone(),
    }
}

/// Encodes a sequence of parts, in order.
#[verifier::loop_isolation(false)]
fn encode_parts(ps: &Vec<Part>) -> (r: Vec<Json>)
    ensures
        views_of(r@) == parts_json(ps.deep_view()),
{
    broadcast use lemma_views_of_len, lemma_views_of_index;

    let ghost psv = ps.deep_view();
    let mut out: Vec<Json> = Vec::new();
    let mut i: usize = 0;
    assert(psv.take(0) =~= Seq::<PartV>::empty());
    assert(views_of(out@) =~= Seq::<JsonV>::empty());
    while i < ps.len()
        invariant
            i <= ps@.len(),
            out@.len() == i,
            views_of(out@) == parts_json(psv.take(i as int)),
        decreases ps@.len() - i,
    {
        let ghost prev = views_of(out@);
        out.push(encode_part(&ps[i]));
        proof {
            assert(views_of(out@) =~= prev.push(part_json(psv[i as int])));
            let b = seq![psv[i as int]];
            assert(b.drop_first() =~= Seq::<PartV>::empty());
            assert(parts_json(Seq::<PartV>::empty()) == Seq::<JsonV>::empty());
            assert(parts_json(b) =~= seq![part_json(psv[i as int])]);
            lemma_parts_json_append(psv.take(i as int), b);
            assert(psv.take(i as int) + b =~= psv.take(i + 1));
            assert(prev + seq![part_json(psv[i as int])] =~= prev.push(part_json(psv[i as int])));
        }
        i += 1;
    }
    assert(psv.take(i as int) =~= psv);
    out
}

/// Encodes a candidate's content.
fn encode_content(c: &Content) -> (r: Json)
    ensures
        r@ == content_json(c@),
{
    let mut members: Vec<(String, Json)> = Vec::new();
    members.push((String::from_str("parts"), Json::Arr(encode_parts(&c.parts))));
    match &c.role {
        Some(role) => {
            members.push((String::from_str("role"), Json::Str(role.clone())));
        },
        None => {},
    }
    let ghost msv = members@;
    let r = Json::Obj(members);
    proof {
        broadcast use lemma_member_views_of_len, lemma_member_views_of_index;

        assert(r@ == JsonV::Obj(crate::json::member_views_of(msv)));
        assert(msv[0].0@ == "parts"@ && msv[0].1@ == JsonV::Arr(parts_json(c@.parts)));
        if c.role is Some {
            assert(msv.len() == 2);
            assert(msv[1].0@ == "role"@ && msv[1].1@ == JsonV::Str(c@.role->0));
        } else {
            assert(msv.len() == 1);
        }
        assert(r@->Obj_0 =~~= content_json(c@)->Obj_0);
    }
    r
}

/// Encodes one safety rating.
fn encode_rating(sr: &SafetyRating) -> (r: Json)
    ensures
        r@ == rating_json(sr@),
{
    let mut members: Vec<(String, Json)> = Vec::new();
    members.push((String::from_str("category"), Json::Str(sr.category.clone())));
    members.push((String::from_str("probability"), Json::Str(sr.probability.clone())));
    let ghost msv = members@;
    let r = Json::Obj(members);
    proof {
        broadcast use lemma_member_views_of_len, lemma_member_views_of_index;

        assert(r@ == JsonV::Obj(crate::json::member_views_of(msv)));
        assert(msv.len() == 2);
        assert(msv[0].0@ == "category"@ && msv[0].1@ == JsonV::Str(sr@.category));
        assert(msv[1].0@ == "probability"@ && msv[1].1@ == JsonV::Str(sr@.probability));
        assert(r@->Obj_0 =~~= rating_json(sr@)->Obj_0);
    }
    r
}

/// Encodes a sequence of safety ratings, in order.
#[verifier::loop_isolation(false)]
fn encode_ratings(rs: &Vec<SafetyRating>) -> (r: Vec<Json>)
    ensures
        views_of(r@) == ratings_json(rs.deep_view()),
{
    broadcast use lemma_views_of_len, lemma_views_of_index;

    let ghost rsv = rs.deep_view();
    let mut out: Vec<Json> = Vec::new();
    let mut i: usize = 0;
    assert(rsv.take(0) =~= Seq::<SafetyRatingV>::empty());
    assert(views_of(out@) =~= Seq::<JsonV>::empty());
    while i < rs.len()
        invariant
            i <= rs@.len(),
            out@.len() == i,
            views_of(out@) == ratings_json(rsv.take(i as int)),
        decreases rs@.len() - i,
    {
        let ghost prev = views_of(out@);
        out.push(encode_rating(&rs[i]));
        proof {
            assert(views_of(out@) =~= prev.push(rating_json(rsv[i as int])));
            let b = seq![rsv[i as int]];
            assert(b.drop_first() =~= Seq::<SafetyRatingV>::empty());
            assert(ratings_json(Seq::<SafetyRatingV>::empty()) == Seq::<JsonV>::empty());
            assert(ratings_json(b) =~= seq![rating_json(rsv[i as int])]);
            lemma_ratings_json_append(rsv.take(i as int), b);
            assert(rsv.take(i as int) + b =~= rsv.take(i + 1));
            assert(prev + seq![rating_json(rsv[i as int])] =~= prev.push(
                rating_json(rsv[i as int]),
            ));
        }
        i += 1;
    }
    assert(rsv.take(i as int) =~= rsv);
    out
}

/// Encodes one citation source.
fn encode_source(s: &CitationSource) -> (r: Json)
    ensures
        r@ == source_json(s@),
{
    let mut members: Vec<(String, Json)> = Vec::new();
    match &s.start_index {
        Some(n) => {
            members.push((String::from_str("startIndex"), Json::Int(*n)));
        },
        None => {},
    }
    match &s.end_index {
        Some(n) => {
            members.push((String::from_str("endIndex"), Json::Int(*n)));
        },
        None => {},
    }
    match &s.license {
        Some(l) => {
            members.push((String::from_str("license"), Json::Str(l.clone())));
        },
        None => {},
    }
    match &s.uri {
        Some(u) => {
            members.push((String::from_str("uri"), Json::Str(u.clone())));
        },
        None => {},
    }
    let ghost msv = members@;
    let r = Json::Obj(members);
    proof {
        broadcast use lemma_member_views_of_len, lemma_member_views_of_index;

        assert(r@ == JsonV::Obj(crate::json::member_views_of(msv)));
        assert(r@->Obj_0 =~~= source_json(s@)->Obj_0);
    }
    r
}

/// Encodes a sequence of citation sources, in order.
#[verifier::loop_isolation(false)]
fn encode_sources(ss: &Vec<CitationSource>) -> (r: Vec<Json>)
    ensures
        views_of(r@) == sources_json(ss.deep_view()),
{
    broadcast use lemma_views_of_len, lemma_views_of_index;

    let ghost ssv = ss.deep_view();
    let mut out: Vec<Json> = Vec::new();
    let mut i: usize = 0;
    assert(ssv.take(0) =~= Seq::<CitationSourceV>::empty());
    assert(views_of(out@) =~= Seq::<JsonV>::empty());
    while i < ss.len()
        invariant
            i <= ss@.len(),
            out@.len() == i,
            views_of(out@) == sources_json(ssv.take(i as int)),
        decreases ss@.len() - i,
    {
        let ghost prev = views_of(out@);
        out.push(encode_source(&ss[i]));
        proof {
            assert(views_of(out@) =~= prev.push(source_json(ssv[i as int])));
            let b = seq![ssv[i as int]];
            assert(b.drop_first() =~= Seq::<CitationSourceV>::empty());
            assert(sources_json(Seq::<CitationSourceV>::empty()) == Seq::<JsonV>::empty());
            assert(sources_json(b) =~= seq![source_json(ssv[i as int])]);
            lemma_sources_json_append(ssv.take(i as int), b);
            assert(ssv.take(i as int) + b =~= ssv.take(i + 1));
            assert(prev + seq![source_json(ssv[i as int])] =~= prev.push(
                source_json(ssv[i as int]),
            ));
        }
        i += 1;
    }
    assert(ssv.take(i as int) =~= ssv);
    out
}

/// Encodes citation metadata.
fn encode_citation(cm: &CitationMetadata) -> (r: Json)
    ensures
        r@ == citation_json(cm@),
{
    let mut members: Vec<(String, Json)> = Vec::new();
    members.push((String::from_str("citationSources"), Json::Arr(encode_sources(
        &cm.citation_sources,
    ))));
    let ghost msv = members@;
    let r = Json::Obj(members);
    proof {
        broadcast use lemma_member_views_of_len, lemma_member_views_of_index;

        assert(r@ == JsonV::Obj(crate::json::member_views_of(msv)));
        assert(msv.len() == 1);
        assert(msv[0].0@ == "citationSources"@);
        assert(msv[0].1@ == JsonV::Arr(sources_json(cm@.citation_sources)));
        assert(r@->Obj_0 =~~= citation_json(cm@)->Obj_0);
    }
    r
}

/// The token that names a finish reason.
fn encode_finish(f: &FinishReason) -> (r: String)
    ensures
        r@ == finish_token(f@),
{
    match f {
        FinishReason::Stop => String::from_str("STOP"),
        FinishReason::Safety => String::from_str("SAFETY"),
        FinishReason::Recitation => String::from_str("RECITATION"),
        FinishReason::MaxTokens => String::from_str("MAX_TOKENS"),
        FinishReason::Other(s) => s.clone(),
    }
}

/// Encodes one candidate.
fn encode_candidate(c: &Candidate) -> (r: Json)
    ensures
        r@ == candidate_json(c@),
{
    let mut members: Vec<(String, Json)> = Vec::new();
    members.push((String::from_str("index"), Json::Int(c.index)));
    match &c.content {
        Some(ct) => {
            members.push((String::from_str("content"), encode_content(ct)));
        },
        None => {},
    }
    match &c.finish_reason {
        Some(f) => {
            members.push((String::from_str("finishReason"), Json::Str(encode_finish(f))));
        },
        None => {},
    }
    members.push((String::from_str("safetyRatings"), Json::Arr(encode_ratings(
        &c.safety_ratings,
    ))));
    match &c.citation_metadata {
        Some(cm) => {
            members.push((String::from_str("citationMetadata"), encode_citation(cm)));
        },
        None => {},
    }
    let ghost msv = members@;
    let r = Json::Obj(members);
    proof {
        broadcast use lemma_member_views_of_len, lemma_member_views_of_index;

        assert(r@ == JsonV::Obj(crate::json::member_views_of(msv)));
        assert(r@->Obj_0 =~~= candidate_json(c@)->Obj_0);
    }
    r
}

/// Encodes a sequence of candidates, in order.
#[verifier::loop_isolation(false)]
fn encode_candidates(cs: &Vec<Candidate>) -> (r: Vec<Json>)
    ensures
        views_of(r@) == candidates_json(cs.deep_view()),
{
    broadcast use lemma_views_of_len, lemma_views_of_index;

    let ghost csv = cs.deep_view();
    let mut out: Vec<Json> = Vec::new();
    let mut i: usize = 0;
    assert(csv.take(0) =~= Seq::<CandidateV>::empty());
    assert(views_of(out@) =~= Seq::<JsonV>::empty());
    while i < cs.len()
        invariant
            i <= cs@.len(),
            out@.len() == i,
            views_of(out@) == candidates_json(csv.take(i as int)),
        decreases cs@.len() - i,
    {
        let ghost prev = views_of(out@);
        out.push(encode_candidate(&cs[i]));
        proof {
            assert(views_of(out@) =~= prev.push(candidate_json(csv[i as int])));
            let b = seq![csv[i as int]];
            assert(b.drop_first() =~= Seq::<CandidateV>::empty());
            assert(candidates_json(Seq::<CandidateV>::empty()) == Seq::<JsonV>::empty());
            assert(candidates_json(b) =~= seq![candidate_json(csv[i as int])]);
            lemma_candidates_json_append(csv.take(i as int), b);
            assert(csv.take(i as int) + b =~= csv.take(i + 1));
            assert(prev + seq![candidate_json(csv[i as int])] =~= prev.push(
                candidate_json(csv[i as int]),
            ));
        }
        i += 1;
    }
    assert(csv.take(i as int) =~= csv);
    out
}

/// Encodes one chunk back into its raw JSON form.
pub fn encode_chunk(ch: &Chunk) -> (r: Json)
    ensures
        r@ == chunk_json(ch@),
{
    let mut members: Vec<(String, Json)> = Vec::new();
    members.push((String::from_str("candidates"), Json::Arr(encode_candidates(
        &ch.candidates,
    ))));
    match &ch.prompt_feedback {
        Some(pf) => {
            members.push((String::from_str("promptFeedback"), pf.deep_clone()));
        },
        None => {},
    }
    let ghost msv = members@;
    let r = Json::Obj(members);
    proof {
        broadcast use lemma_member_views_of_len, lemma_member_views_of_index;

        assert(r@ == JsonV::Obj(crate::json::member_views_of(msv)));
        assert(r@->Obj_0 =~~= chunk_json(ch@)->Obj_0);
    }
    r
}

/// Encodes an error report back into its raw JSON form.
pub fn encode_error(e: &ErrorReport) -> (r: Json)
    ensures
        r@ == error_json(e@),
{
    let mut inner: Vec<(String, Json)> = Vec::new();
    inner.push((String::from_str("code"), Json::Int(e.code)));
    inner.push((String::from_str("message"), Json::Str(e.message.clone())));
    inner.push((String::from_str("status"), Json::Str(e.status.clone())));
    let ghost inv = inner@;
    let body = Json::Obj(inner);
    proof {
        broadcast use lemma_member_views_of_len, lemma_member_views_of_index;

        assert(body@ == JsonV::Obj(crate::json::member_views_of(inv)));
        assert(inv.len() == 3);
        assert(inv[0].0@ == "code"@ && inv[0].1@ == JsonV::Int(e.code));
        assert(inv[1].0@ == "message"@ && inv[1].1@ == JsonV::Str(e@.message));
        assert(inv[2].0@ == "status"@ && inv[2].1@ == JsonV::Str(e@.status));
        assert(body@->Obj_0 =~~= error_json(e@)->Obj_0[0].1->Obj_0);
    }
    let ghost bodyv = body@;
    let mut members: Vec<(String, Json)> = Vec::new();
    members.push((String::from_str("error"), body));
    let ghost msv = members@;
    let r = Json::Obj(members);
    proof {
        broadcast use lemma_member_views_of_len, lemma_member_views_of_index;

        assert(r@ == JsonV::Obj(crate::json::member_views_of(msv)));
        assert(msv.len() == 1);
        assert(msv[0].0@ == "error"@ && msv[0].1@ == bodyv);
        assert(r@->Obj_0 =~~= error_json(e@)->Obj_0);
    }
    r
}

/// Encodes one response item back into its raw JSON form.
pub fn encode_item(item: &ResponseItem) -> (r: Json)
    ensures
        r@ == item_json(item@),
{
    match item {
        ResponseItem::Chunk(c) => encode_chunk(c),
        ResponseItem::Error(e) => encode_error(e),
    }
}

/// Encodes one request content block.
fn encode_request_content(rc: &RequestContent) -> (r: Json)
    ensures
        r@ == request_content_json(rc@),
{
    let mut members: Vec<(String, Json)> = Vec::new();
    match &rc.role {
        Some(role) => {
            members.push((String::from_str("role"), Json::Str(role.clone())));
        },
        None => {},
    }
    members.push((String::from_str("parts"), Json::Arr(encode_parts(&rc.parts))));
    let ghost msv = members@;
    let r = Json::Obj(members);
    proof {
        broadcast use lemma_member_views_of_len, lemma_member_views_of_index;

        assert(r@ == JsonV::Obj(crate::json::member_views_of(msv)));
        assert(r@->Obj_0 =~~= request_content_json(rc@)->Obj_0);
    }
    r
}

/// Encodes the request payload the service accepts.
#[verifier::loop_isolation(false)]
pub fn encode_request(req: &Request) -> (r: Json)
    ensures
        r@ == request_json(req@),
{
    broadcast use lemma_views_of_len, lemma_views_of_index;

    let ghost rcsv = req.contents.deep_view();
    let mut blocks: Vec<Json> = Vec::new();
    let mut i: usize = 0;
    assert(rcsv.take(0) =~= Seq::<RequestContentV>::empty());
    assert(views_of(blocks@) =~= Seq::<JsonV>::empty());
    while i < req.contents.len()
        invariant
            i <= req.contents@.len(),
            blocks@.len() == i,
            views_of(blocks@) == request_contents_json(rcsv.take(i as int)),
        decreases req.contents@.len() - i,
    {
        let ghost prev = views_of(blocks@);
        blocks.push(encode_request_content(&req.contents[i]));
        proof {
            assert(views_of(blocks@) =~= prev.push(request_content_json(rcsv[i as int])));
            let b = seq![rcsv[i as int]];
            assert(b.drop_first() =~= Seq::<RequestContentV>::empty());
            assert(request_contents_json(Seq::<RequestContentV>::empty())
                == Seq::<JsonV>::empty());
            assert(request_contents_json(b) =~= seq![request_content_json(rcsv[i as int])]);
            lemma_request_contents_json_append(rcsv.take(i as int), b);
            assert(rcsv.take(i as int) + b =~= rcsv.take(i + 1));
            assert(prev + seq![request_content_json(rcsv[i as int])] =~= prev.push(
                request_content_json(rcsv[i as int]),
            ));
        }
        i += 1;
    }
    assert(rcsv.take(i as int) =~= rcsv);
    let mut members: Vec<(String, Json)> = Vec::new();
    members.push((String::from_str("contents"), Json::Arr(blocks)));
    match &req.generation_config {
        Some(gc) => {
            members.push((String::from_str("generationConfig"), gc.deep_clone()));
        },
        None => {},
    }
    match &req.tools {
        Some(t) => {
            members.push((String::from_str("tools"), t.deep_clone()));
        },
        None => {},
    }
    let ghost msv = members@;
    let r = Json::Obj(members);
    proof {
        broadcast use lemma_member_views_of_len, lemma_member_views_of_index;

        assert(r@ == JsonV::Obj(crate::json::member_views_of(msv)));
        assert(r@->Obj_0 =~~= request_json(req@)->Obj_0);
    }
    r
}

} // verus!

//! Decoding loses nothing: a decoded item re-serializes to a raw value that
//! decodes back to the identical item.
//!
//! The decoder keeps unknown part kinds, unknown finish-reason tokens, prompt
//! feedback and citation spans verbatim, so every value it produces is in the
//! canonical range of the encoder: re-encoding and decoding again is the
//! identity on decoded items.

use vstd::prelude::*;

use crate::decode::{
    decode_candidate, decode_candidates, decode_chunk, decode_citation, decode_content,
    decode_error, decode_item, decode_part, decode_parts, decode_rating, decode_ratings,
    decode_source, decode_sources, finish_reason_of,
};
use crate::encode::{
    candidate_json, candidates_json, chunk_json, citation_json, content_json, error_json,
    finish_token, item_json, opt_int_json, opt_member, opt_str_json, part_json, parts_json,
    rating_json, ratings_json, source_json, sources_json,
};
use crate::json::{lookup, JsonV};
use crate::wire::{
    CandidateV, ChunkV, CitationMetadataV, CitationSourceV, ContentV, ErrorReportV, FinishReasonV,
    PartV, ResponseItemV, SafetyRatingV,
};

verus! {

/// A part in the decoder's range: an unknown kind it kept verbatim cannot
/// itself look like a text part, or decoding it again would read it as one.
pub open spec fn wf_part(p: PartV) -> bool {
    match p {
        PartV::Text(_) => true,
        PartV::Other(j) => !(j is Obj && j.field("text"@) is Some),
    }
}

/// A finish reason in the decoder's range: an unknown token it kept verbatim
/// is none of the known tokens.
pub open spec fn wf_finish(f: FinishReasonV) -> bool {
    match f {
        FinishReasonV::Other(s) => s != "STOP"@ && s != "SAFETY"@ && s != "RECITATION"@ && s
            != "MAX_TOKENS"@,
        _ => true,
    }
}

/// A content value in the decoder's range.
pub open spec fn wf_content(c: ContentV) -> bool {
    forall|i: int| 0 <= i < c.parts.len() ==> wf_part(#[trigger] c.parts[i])
}

/// A candidate in the decoder's range.
pub open spec fn wf_candidate(c: CandidateV) -> bool {
    &&& match c.content {
        Some(ct) => wf_content(ct),
        None => true,
    }
    &&& match c.finish_reason {
        Some(f) => wf_finish(f),
        None => true,
    }
}

/// A chunk in the decoder's range.
pub open spec fn wf_chunk(ch: ChunkV) -> bool {
    forall|i: int| 0 <= i < ch.candidates.len() ==> wf_candidate(#[trigger] ch.candidates[i])
}

/// A response item in the decoder's range.
pub open spec fn wf_item(v: ResponseItemV) -> bool {
    match v {
        ResponseItemV::Chunk(ch) => wf_chunk(ch),
        ResponseItemV::Error(_) => true,
    }
}

/// A lookup walks concatenated member lists front to back.
proof fn lemma_lookup_append(a: Seq<(Seq<char>, JsonV)>, b: Seq<(Seq<char>, JsonV)>, k: Seq<char>)
    ensures
        lookup(a + b, k) == (match lookup(a, k) {
            Some(v) => Some(v),
            None => lookup(b, k),
        }),
    decreases a.len(),
{
    if a.len() == 0 {
        assert(a + b =~= b);
    } else {
        assert((a + b)[0] == a[0]);
        assert((a + b).drop_first() =~= a.drop_first() + b);
        lemma_lookup_append(a.drop_first(), b, k);
    }
}

/// What a lookup finds in an optional singleton member list.
proof fn lemma_lookup_opt_member(key: Seq<char>, v: Option<JsonV>, k: Seq<char>)
    ensures
        lookup(opt_member(key, v), k) == (if k == key {
            v
        } else {
            None::<JsonV>
        }),
{
    match v {
        Some(j) => {
            assert(opt_member(key, v).drop_first() =~= Seq::<(Seq<char>, JsonV)>::empty());
            assert(lookup(Seq::<(Seq<char>, JsonV)>::empty(), k) is None);
        },
        None => {
            assert(lookup(Seq::<(Seq<char>, JsonV)>::empty(), k) is None);
        },
    }
}

proof fn lemma_part_round_trip(p: PartV)
    requires
        wf_part(p),
    ensures
        decode_part(part_json(p)) == Some(p),
{
    match p {
        PartV::Text(s) => {
            let j = part_json(p);
            assert(j.field("text"@) == Some(JsonV::Str(s)));
        },
        PartV::Other(_) => {},
    }
}

proof fn lemma_parts_round_trip(ps: Seq<PartV>)
    requires
        forall|i: int| 0 <= i < ps.len() ==> wf_part(#[trigger] ps[i]),
    ensures
        decode_parts(parts_json(ps)) == Some(ps),
    decreases ps.len(),
{
    if ps.len() == 0 {
        assert(parts_json(ps) =~= Seq::<JsonV>::empty());
    } else {
        lemma_part_round_trip(ps[0]);
        lemma_parts_round_trip(ps.drop_first());
        let js = parts_json(ps);
        assert(js[0] == part_json(ps[0]));
        assert(js.drop_first() =~= parts_json(ps.drop_first()));
        assert(seq![ps[0]] + ps.drop_first() =~= ps);
    }
}

proof fn lemma_content_round_trip(c: ContentV)
    requires
        wf_content(c),
    ensures
        decode_content(content_json(c)) == Some(c),
{
    reveal_strlit("parts");
    reveal_strlit("role");
    assert("parts"@.len() == 5);
    assert("role"@.len() == 4);
    let head = seq![("parts"@, JsonV::Arr(parts_json(c.parts)))];
    let tail = opt_member("role"@, opt_str_json(c.role));
    let j = content_json(c);
    assert(j->Obj_0 == head + tail);
    lemma_lookup_append(head, tail, "parts"@);
    lemma_lookup_append(head, tail, "role"@);
    lemma_lookup_opt_member("role"@, opt_str_json(c.role), "role"@);
    assert("parts"@ != "role"@);
    assert(lookup(head, "parts"@) == Some(JsonV::Arr(parts_json(c.parts))));
    assert(lookup(head, "role"@) is None) by {
        assert(head.drop_first() =~= Seq::<(Seq<char>, JsonV)>::empty());
        assert(lookup(Seq::<(Seq<char>, JsonV)>::empty(), "role"@) is None);
    }
    assert(j.field("parts"@) == Some(JsonV::Arr(parts_json(c.parts))));
    assert(j.field("role"@) == opt_str_json(c.role));
    lemma_parts_round_trip(c.parts);
}

proof fn lemma_rating_round_trip(r: SafetyRatingV)
    ensures
        decode_rating(rating_json(r)) == Some(r),
{
    reveal_strlit("category");
    reveal_strlit("probability");
    assert("category"@.len() == 8);
    assert("probability"@.len() == 11);
    let j = rating_json(r);
    assert("category"@ != "probability"@);
    assert(j.field("category"@) == Some(JsonV::Str(r.category)));
    assert(j.field("probability"@) == Some(JsonV::Str(r.probability))) by {
        assert(j->Obj_0.drop_first() =~= seq![("probability"@, JsonV::Str(r.probability))]);
        assert(lookup(j->Obj_0.drop_first(), "probability"@) == Some(
            JsonV::Str(r.probability),
        ));
    }
}

proof fn lemma_ratings_round_trip(rs: Seq<SafetyRatingV>)
    ensures
        decode_ratings(ratings_json(rs)) == Some(rs),
    decreases rs.len(),
{
    if rs.len() == 0 {
        assert(ratings_json(rs) =~= Seq::<JsonV>::empty());
    } else {
        lemma_rating_round_trip(rs[0]);
        lemma_ratings_round_trip(rs.drop_first());
        let js = ratings_json(rs);
        assert(js[0] == rating_json(rs[0]));
        assert(js.drop_first() =~= ratings_json(rs.drop_first()));
        assert(seq![rs[0]] + rs.drop_first() =~= rs);
    }
}

proof fn lemma_source_round_trip(s: CitationSourceV)
    ensures
        decode_source(source_json(s)) == Some(s),
{
    reveal_strlit("startIndex");
    reveal_strlit("endIndex");
    reveal_strlit("license");
    reveal_strlit("uri");
    assert("startIndex"@.len() == 10);
    assert("endIndex"@.len() == 8);
    assert("license"@.len() == 7);
    assert("uri"@.len() == 3);
    let m1 = opt_member("startIndex"@, opt_int_json(s.start_index));
    let m2 = opt_member("endIndex"@, opt_int_json(s.end_index));
    let m3 = opt_member("license"@, opt_str_json(s.license));
    let m4 = opt_member("uri"@, opt_str_json(s.uri));
    let j = source_json(s);
    assert(j->Obj_0 == m1 + m2 + m3 + m4);
    assert(m1 + m2 + m3 + m4 =~= m1 + (m2 + (m3 + m4)));
    let keys = seq!["startIndex"@, "endIndex"@, "license"@, "uri"@];
    assert forall|t: int| 0 <= t < 4 implies lookup(j->Obj_0, keys[t]) == lookup(
        m1 + (m2 + (m3 + m4)),
        keys[t],
    ) by {}
    assert forall|t: int| 0 <= t < 4 implies #[trigger] lookup(m1 + (m2 + (m3 + m4)), keys[t])
        == (if t == 0 {
        opt_int_json(s.start_index)
    } else if t == 1 {
        opt_int_json(s.end_index)
    } else if t == 2 {
        opt_str_json(s.license)
    } else {
        opt_str_json(s.uri)
    }) by {
        let k = keys[t];
        lemma_lookup_append(m1, m2 + (m3 + m4), k);
        lemma_lookup_append(m2, m3 + m4, k);
        lemma_lookup_append(m3, m4, k);
        lemma_lookup_opt_member("startIndex"@, opt_int_json(s.start_index), k);
        lemma_lookup_opt_member("endIndex"@, opt_int_json(s.end_index), k);
        lemma_lookup_opt_member("license"@, opt_str_json(s.license), k);
        lemma_lookup_opt_member("uri"@, opt_str_json(s.uri), k);
    }
    assert(j.field("startIndex"@) == opt_int_json(s.start_index));
    assert(j.field("endIndex"@) == opt_int_json(s.end_index));
    assert(j.field("license"@) == opt_str_json(s.license));
    assert(j.field("uri"@) == opt_str_json(s.uri));
}

proof fn lemma_sources_round_trip(ss: Seq<CitationSourceV>)
    ensures
        decode_sources(sources_json(ss)) == Some(ss),
    decreases ss.len(),
{
    if ss.len() == 0 {
        assert(sources_json(ss) =~= Seq::<JsonV>::empty());
    } else {
        lemma_source_round_trip(ss[0]);
        lemma_sources_round_trip(ss.drop_first());
        let js = sources_json(ss);
        assert(js[0] == source_json(ss[0]));
        assert(js.drop_first() =~= sources_json(ss.drop_first()));
        assert(seq![ss[0]] + ss.drop_first() =~= ss);
    }
}

proof fn lemma_citation_round_trip(cm: CitationMetadataV)
    ensures
        decode_citation(citation_json(cm)) == Some(cm),
{
    let j = citation_json(cm);
    assert(j.field("citationSources"@) == Some(
        JsonV::Arr(sources_json(cm.citation_sources)),
    ));
    lemma_sources_round_trip(cm.citation_sources);
}

proof fn lemma_finish_round_trip(f: FinishReasonV)
    requires
        wf_finish(f),
    ensures
        finish_reason_of(finish_token(f)) == f,
{
    reveal_strlit("STOP");
    reveal_strlit("SAFETY");
    reveal_strlit("RECITATION");
    reveal_strlit("MAX_TOKENS");
    assert("STOP"@.len() == 4);
    assert("SAFETY"@.len() == 6);
    assert("RECITATION"@.len() == 10);
    assert("MAX_TOKENS"@.len() == 10);
    assert("RECITATION"@[0] == 'R');
    assert("MAX_TOKENS"@[0] == 'M');
}

proof fn lemma_candidate_round_trip(c: CandidateV)
    requires
        wf_candidate(c),
    ensures
        decode_candidate(candidate_json(c)) == Some(c),
{
    reveal_strlit("index");
    reveal_strlit("content");
    reveal_strlit("finishReason");
    reveal_strlit("safetyRatings");
    reveal_strlit("citationMetadata");
    assert("index"@.len() == 5);
    assert("content"@.len() == 7);
    assert("finishReason"@.len() == 12);
    assert("safetyRatings"@.len() == 13);
    assert("citationMetadata"@.len() == 16);
    let v1 = Some(JsonV::Int(c.index));
    let v2 = match c.content {
        Some(ct) => Some(content_json(ct)),
        None => None,
    };
    let v3 = match c.finish_reason {
        Some(f) => Some(JsonV::Str(finish_token(f))),
        None => None,
    };
    let v4 = Some(JsonV::Arr(ratings_json(c.safety_ratings)));
    let v5 = match c.citation_metadata {
        Some(cm) => Some(citation_json(cm)),
        None => None,
    };
    let m1 = opt_member("index"@, v1);
    let m2 = opt_member("content"@, v2);
    let m3 = opt_member("finishReason"@, v3);
    let m4 = opt_member("safetyRatings"@, v4);
    let m5 = opt_member("citationMetadata"@, v5);
    let j = candidate_json(c);
    assert(j->Obj_0 =~= m1 + (m2 + (m3 + (m4 + m5))));
    let keys = seq!["index"@, "content"@, "finishReason"@, "safetyRatings"@, "citationMetadata"@];
    assert forall|t: int| 0 <= t < 5 implies #[trigger] lookup(j->Obj_0, keys[t]) == (if t == 0 {
        v1
    } else if t == 1 {
        v2
    } else if t == 2 {
        v3
    } else if t == 3 {
        v4
    } else {
        v5
    }) by {
        let k = keys[t];
        lemma_lookup_append(m1, m2 + (m3 + (m4 + m5)), k);
        lemma_lookup_append(m2, m3 + (m4 + m5), k);
        lemma_lookup_append(m3, m4 + m5, k);
        lemma_lookup_append(m4, m5, k);
        lemma_lookup_opt_member("index"@, v1, k);
        lemma_lookup_opt_member("content"@, v2, k);
        lemma_lookup_opt_member("finishReason"@, v3, k);
        lemma_lookup_opt_member("safetyRatings"@, v4, k);
        lemma_lookup_opt_member("citationMetadata"@, v5, k);
    }
    assert(j.field("index"@) == v1);
    assert(j.field("content"@) == v2);
    assert(j.field("finishReason"@) == v3);
    assert(j.field("safetyRatings"@) == v4);
    assert(j.field("citationMetadata"@) == v5);
    match c.content {
        Some(ct) => lemma_content_round_trip(ct),
        None => {},
    }
    match c.finish_reason {
        Some(f) => lemma_finish_round_trip(f),
        None => {},
    }
    lemma_ratings_round_trip(c.safety_ratings);
    match c.citation_metadata {
        Some(cm) => lemma_citation_round_trip(cm),
        None => {},
    }
}

proof fn lemma_candidates_round_trip(cs: Seq<CandidateV>)
    requires
        forall|i: int| 0 <= i < cs.len() ==> wf_candidate(#[trigger] cs[i]),
    ensures
        decode_candidates(candidates_json(cs)) == Some(cs),
    decreases cs.len(),
{
    if cs.len() == 0 {
        assert(candidates_json(cs) =~= Seq::<JsonV>::empty());
    } else {
        lemma_candidate_round_trip(cs[0]);
        lemma_candidates_round_trip(cs.drop_first());
        let js = candidates_json(cs);
        assert(js[0] == candidate_json(cs[0]));
        assert(js.drop_first() =~= candidates_json(cs.drop_first()));
        assert(seq![cs[0]] + cs.drop_first() =~= cs);
    }
}

proof fn lemma_chunk_round_trip(ch: ChunkV)
    requires
        wf_chunk(ch),
    ensures
        chunk_json(ch) is Obj,
        chunk_json(ch).field("error"@) is None,
        chunk_json(ch).field("candidates"@) is Some,
        decode_chunk(chunk_json(ch)) == Some(ch),
{
    reveal_strlit("candidates");
    reveal_strlit("promptFeedback");
    reveal_strlit("error");
    assert("candidates"@.len() == 10);
    assert("promptFeedback"@.len() == 14);
    assert("error"@.len() == 5);
    let v1 = Some(JsonV::Arr(candidates_json(ch.candidates)));
    let m1 = opt_member("candidates"@, v1);
    let m2 = opt_member("promptFeedback"@, ch.prompt_feedback);
    let j = chunk_json(ch);
    assert(j->Obj_0 =~= m1 + m2);
    let keys = seq!["candidates"@, "promptFeedback"@, "error"@];
    assert forall|t: int| 0 <= t < 3 implies #[trigger] lookup(j->Obj_0, keys[t]) == (if t == 0 {
        v1
    } else if t == 1 {
        ch.prompt_feedback
    } else {
        None
    }) by {
        let k = keys[t];
        lemma_lookup_append(m1, m2, k);
        lemma_lookup_opt_member("candidates"@, v1, k);
        lemma_lookup_opt_member("promptFeedback"@, ch.prompt_feedback, k);
    }
    assert(j.field("candidates"@) == v1);
    assert(j.field("promptFeedback"@) == ch.prompt_feedback);
    assert(j.field("error"@) is None);
    lemma_candidates_round_trip(ch.candidates);
}

proof fn lemma_error_round_trip(e: ErrorReportV)
    ensures
        error_json(e) is Obj,
        error_json(e).field("error"@) is Some,
        decode_error(error_json(e)) == Some(e),
{
    reveal_strlit("error");
    reveal_strlit("code");
    reveal_strlit("message");
    reveal_strlit("status");
    assert("code"@.len() == 4);
    assert("message"@.len() == 7);
    assert("status"@.len() == 6);
    let j = error_json(e);
    assert(j.field("error"@) is Some);
    let body = j.field("error"@)->0;
    assert(body.field("code"@) == Some(JsonV::Int(e.code)));
    let tail1 = body->Obj_0.drop_first();
    let tail2 = tail1.drop_first();
    assert(tail1 =~= seq![("message"@, JsonV::Str(e.message)), ("status"@, JsonV::Str(e.status))]);
    assert(tail2 =~= seq![("status"@, JsonV::Str(e.status))]);
    assert(lookup(tail2, "status"@) == Some(JsonV::Str(e.status))) by {
        assert(tail2.drop_first() =~= Seq::<(Seq<char>, JsonV)>::empty());
    }
    assert(lookup(tail1, "message"@) == Some(JsonV::Str(e.message)));
    assert(lookup(tail1, "status"@) == lookup(tail2, "status"@));
    assert(body.field("message"@) == Some(JsonV::Str(e.message)));
    assert(body.field("status"@) == Some(JsonV::Str(e.status)));
}

proof fn lemma_decoded_part_wf(j: JsonV)
    ensures
        decode_part(j) is Some ==> wf_part(decode_part(j)->Some_0),
{
}

proof fn lemma_decoded_parts_wf(items: Seq<JsonV>)
    ensures
        decode_parts(items) is Some ==> forall|i: int|
            0 <= i < decode_parts(items)->Some_0.len() ==> wf_part(
                #[trigger] decode_parts(items)->Some_0[i],
            ),
    decreases items.len(),
{
    if items.len() > 0 && decode_parts(items) is Some {
        lemma_decoded_part_wf(items[0]);
        lemma_decoded_parts_wf(items.drop_first());
        let p = decode_part(items[0])->Some_0;
        let rest = decode_parts(items.drop_first())->Some_0;
        assert forall|i: int| 0 <= i < decode_parts(items)->Some_0.len() implies wf_part(
            #[trigger] decode_parts(items)->Some_0[i],
        ) by {
            if i == 0 {
                assert(decode_parts(items)->Some_0[i] == p);
            } else {
                assert(decode_parts(items)->Some_0[i] == rest[i - 1]);
            }
        }
    }
}

proof fn lemma_finish_reason_wf(s: Seq<char>)
    ensures
        wf_finish(finish_reason_of(s)),
{
}

proof fn lemma_decoded_content_wf(j: JsonV)
    ensures
        decode_content(j) is Some ==> wf_content(decode_content(j)->Some_0),
{
    if j is Obj {
        match j.field("parts"@) {
            Some(JsonV::Arr(items)) => {
                lemma_decoded_parts_wf(items);
            },
            _ => {},
        }
    }
}

proof fn lemma_decoded_candidate_wf(j: JsonV)
    ensures
        decode_candidate(j) is Some ==> wf_candidate(decode_candidate(j)->Some_0),
{
    if j is Obj {
        match j.field("content"@) {
            Some(c) => {
                lemma_decoded_content_wf(c);
            },
            None => {},
        }
        match j.field("finishReason"@) {
            Some(JsonV::Str(s)) => {
                lemma_finish_reason_wf(s);
            },
            _ => {},
        }
    }
}

proof fn lemma_decoded_candidates_wf(items: Seq<JsonV>)
    ensures
        decode_candidates(items) is Some ==> forall|i: int|
            0 <= i < decode_candidates(items)->Some_0.len() ==> wf_candidate(
                #[trigger] decode_candidates(items)->Some_0[i],
            ),
    decreases items.len(),
{
    if items.len() > 0 && decode_candidates(items) is Some {
        lemma_decoded_candidate_wf(items[0]);
        lemma_decoded_candidates_wf(items.drop_first());
        let c = decode_candidate(items[0])->Some_0;
        let rest = decode_candidates(items.drop_first())->Some_0;
        assert forall|i: int| 0 <= i < decode_candidates(items)->Some_0.len() implies wf_candidate(
            #[trigger] decode_candidates(items)->Some_0[i],
        ) by {
            if i == 0 {
                assert(decode_candidates(items)->Some_0[i] == c);
            } else {
                assert(decode_candidates(items)->Some_0[i] == rest[i - 1]);
            }
        }
    }
}

/// Everything the decoder produces lies in the encoder's canonical range.
pub proof fn lemma_decoded_item_wf(j: JsonV)
    ensures
        decode_item(j) is Ok ==> wf_item(decode_item(j)->Ok_0),
{
    if j is Obj && j.field("error"@) is None {
        match j.field("candidates"@) {
            Some(JsonV::Arr(items)) => {
                lemma_decoded_candidates_wf(items);
            },
            _ => {},
        }
    }
}

/// A decoded item, re-serialized, decodes back to the identical item.
pub proof fn lemma_item_round_trip(v: ResponseItemV)
    requires
        wf_item(v),
    ensures
        decode_item(item_json(v)) == Ok::<ResponseItemV, crate::wire::DecodeFailureV>(v),
{
    match v {
        ResponseItemV::Chunk(ch) => {
            lemma_chunk_round_trip(ch);
        },
        ResponseItemV::Error(e) => {
            lemma_error_round_trip(e);
        },
    }
}

/// Decoding loses nothing: whatever raw value decodes at all, re-serializing
/// the decoded item and decoding again yields the identical item.
pub proof fn lemma_reserialization_identity(j: JsonV)
    requires
        decode_item(j) is Ok,
    ensures
        decode_item(item_json(decode_item(j)->Ok_0)) == decode_item(j),
{
    lemma_decoded_item_wf(j);
    lemma_item_round_trip(decode_item(j)->Ok_0);
}

} // verus!

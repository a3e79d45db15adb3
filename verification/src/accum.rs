//! The text accumulator: what each decoded item contributes to the output.
//!
//! A chunk contributes the concatenation, in listed order, of every text part
//! of every candidate that carries content; candidates without content and
//! parts of other kinds contribute nothing. An error item contributes no text
//! at all: it becomes a service-error event, surfaced distinctly so that
//! errors are never mixed into the text stream.

use vstd::prelude::*;

use crate::decode::{decode_chunk, decode_item, is_chunk_shape};
use crate::json::JsonV;
use crate::wire::{
    CandidateV, Chunk, ChunkV, ContentV, ErrorReport, Event, EventV, Part, PartV, ResponseItem,
    ResponseItemV,
};

verus! {

/// The text one part contributes: its characters for a text part, nothing
/// for any other kind.
pub open spec fn part_text(p: PartV) -> Seq<char> {
    match p {
        PartV::Text(s) => s,
        PartV::Other(_) => Seq::empty(),
    }
}

/// The text a sequence of parts contributes, in order.
pub open spec fn parts_text(parts: Seq<PartV>) -> Seq<char>
    decreases parts.len(),
{
    if parts.len() == 0 {
        Seq::empty()
    } else {
        part_text(parts[0]) + parts_text(parts.drop_first())
    }
}

/// The text of a candidate's content.
pub open spec fn content_text(c: ContentV) -> Seq<char> {
    parts_text(c.parts)
}

/// The text one candidate contributes: nothing when generation was blocked
/// before producing content.
pub open spec fn candidate_text(c: CandidateV) -> Seq<char> {
    match c.content {
        Some(ct) => content_text(ct),
        None => Seq::empty(),
    }
}

/// The text a sequence of candidates contributes, in index order.
pub open spec fn candidates_text(cs: Seq<CandidateV>) -> Seq<char>
    decreases cs.len(),
{
    if cs.len() == 0 {
        Seq::empty()
    } else {
        candidate_text(cs[0]) + candidates_text(cs.drop_first())
    }
}

/// The text one chunk contributes.
pub open spec fn chunk_text(ch: ChunkV) -> Seq<char> {
    candidates_text(ch.candidates)
}

/// What one decoded item means to the caller.
pub open spec fn event_of(item: ResponseItemV) -> EventV {
    match item {
        ResponseItemV::Chunk(c) => EventV::TextDelta(chunk_text(c)),
        ResponseItemV::Error(e) => EventV::ServiceError(e),
    }
}

pub proof fn lemma_parts_text_append(a: Seq<PartV>, b: Seq<PartV>)
    ensures
        parts_text(a + b) == parts_text(a) + parts_text(b),
    decreases a.len(),
{
    if a.len() == 0 {
        assert(a + b =~= b);
        assert(Seq::<char>::empty() + parts_text(b) =~= parts_text(b));
    } else {
        assert((a + b)[0] == a[0]);
        assert((a + b).drop_first() =~= a.drop_first() + b);
        lemma_parts_text_append(a.drop_first(), b);
        assert(part_text(a[0]) + (parts_text(a.drop_first()) + parts_text(b)) =~= (part_text(a[0])
            + parts_text(a.drop_first())) + parts_text(b));
    }
}

pub proof fn lemma_candidates_text_append(a: Seq<CandidateV>, b: Seq<CandidateV>)
    ensures
        candidates_text(a + b) == candidates_text(a) + candidates_text(b),
    decreases a.len(),
{
    if a.len() == 0 {
        assert(a + b =~= b);
        assert(Seq::<char>::empty() + candidates_text(b) =~= candidates_text(b));
    } else {
        assert((a + b)[0] == a[0]);
        assert((a + b).drop_first() =~= a.drop_first() + b);
        lemma_candidates_text_append(a.drop_first(), b);
        assert(candidate_text(a[0]) + (candidates_text(a.drop_first()) + candidates_text(b)) =~= (
        candidate_text(a[0]) + candidates_text(a.drop_first())) + candidates_text(b));
    }
}

/// A candidate blocked before producing content — whatever its finish
/// reason says — contributes exactly the empty string.
pub proof fn lemma_blocked_candidate_text(c: CandidateV)
    requires
        c.content is None,
    ensures
        candidate_text(c) == Seq::<char>::empty(),
{
}

/// Candidates that all lack content contribute no text at all.
pub proof fn lemma_contentless_candidates_text(cs: Seq<CandidateV>)
    requires
        forall|i: int| 0 <= i < cs.len() ==> cs[i].content is None,
    ensures
        candidates_text(cs) == Seq::<char>::empty(),
    decreases cs.len(),
{
    if cs.len() > 0 {
        lemma_contentless_candidates_text(cs.drop_first());
        assert(Seq::<char>::empty() + Seq::<char>::empty() =~= Seq::<char>::empty());
    }
}

/// A chunk whose candidates were all blocked before producing content — a
/// safety or recitation block, say — is still a valid item, no decode
/// failure, and contributes exactly the empty string.
pub proof fn lemma_blocked_chunk_contributes_nothing(j: JsonV)
    requires
        is_chunk_shape(j),
        forall|i: int|
            0 <= i < decode_chunk(j)->Some_0.candidates.len()
                ==> decode_chunk(j)->Some_0.candidates[i].content is None,
    ensures
        decode_item(j) is Ok,
        chunk_text(decode_item(j)->Ok_0->Chunk_0) == Seq::<char>::empty(),
{
    lemma_contentless_candidates_text(decode_chunk(j)->Some_0.candidates);
}

/// Extracts the text a chunk contributes: every text part of every candidate
/// that carries content, concatenated in listed order with no separators.
#[verifier::loop_isolation(false)]
pub fn extract_text(chunk: &Chunk) -> (r: String)
    ensures
        r@ == chunk_text(chunk@),
{
    let ghost cs = chunk@.candidates;
    let mut out = String::new();
    let mut i: usize = 0;
    assert(cs.take(0) =~= Seq::<CandidateV>::empty());
    while i < chunk.candidates.len()
        invariant
            i <= chunk.candidates@.len(),
            out@ == candidates_text(cs.take(i as int)),
        decreases chunk.candidates@.len() - i,
    {
        match &chunk.candidates[i].content {
            Some(content) => {
                let ghost ps = cs[i as int].content->Some_0.parts;
                let mut k: usize = 0;
                assert(ps.take(0) =~= Seq::<PartV>::empty());
                assert(parts_text(ps.take(0)) =~= Seq::<char>::empty());
                while k < content.parts.len()
                    invariant
                        k <= content.parts@.len(),
                        ps == cs[i as int].content->Some_0.parts,
                        0 <= i < chunk.candidates@.len(),
                        content == chunk.candidates@[i as int].content->Some_0,
                        cs[i as int].content is Some,
                        content.parts.deep_view() == ps,
                        out@ == candidates_text(cs.take(i as int)) + parts_text(
                            ps.take(k as int),
                        ),
                    decreases content.parts@.len() - k,
                {
                    match &content.parts[k] {
                        Part::Text(s) => {
                            out.append(s.as_str());
                        },
                        Part::Other(_) => {},
                    }
                    proof {
                        let b = seq![ps[k as int]];
                        assert(b.drop_first() =~= Seq::<PartV>::empty());
                        assert(parts_text(Seq::<PartV>::empty()) == Seq::<char>::empty());
                        assert(parts_text(b) =~= part_text(ps[k as int]));
                        lemma_parts_text_append(ps.take(k as int), b);
                        assert(ps.take(k as int) + b =~= ps.take(k + 1));
                    }
                    k += 1;
                }
                assert(ps.take(k as int) =~= ps);
            },
            None => {
                assert(candidate_text(cs[i as int]) =~= Seq::<char>::empty());
            },
        }
        proof {
            let b = seq![cs[i as int]];
            assert(b.drop_first() =~= Seq::<CandidateV>::empty());
            assert(candidates_text(Seq::<CandidateV>::empty()) == Seq::<char>::empty());
            assert(candidates_text(b) =~= candidate_text(cs[i as int]));
            lemma_candidates_text_append(cs.take(i as int), b);
            assert(cs.take(i as int) + b =~= cs.take(i + 1));
        }
        i += 1;
    }
    assert(cs.take(i as int) =~= cs);
    out
}

/// Classifies one decoded item: a chunk becomes the text delta it
/// contributes, to be surfaced at once; an error item becomes a
/// service-error event, never mixed into the text.
pub fn classify(item: &ResponseItem) -> (ev: Event)
    ensures
        ev@ == event_of(item@),
{
    match item {
        ResponseItem::Chunk(c) => Event::TextDelta(extract_text(c)),
        ResponseItem::Error(e) => Event::ServiceError(
            ErrorReport { code: e.code, message: e.message.clone(), status: e.status.clone() },
        ),
    }
}

} // verus!

//! The stream driver's state: one session of consuming raw items in arrival
//! order, strictly forward, one pass.
//!
//! Each pushed item is recorded in the transcript whatever its decode
//! outcome, and contributes its text — nothing, for error items and
//! malformed items — to the accumulated output. A service-level error does
//! not stop the session: later chunks are still processed and still
//! accumulate text. Only the external transport decides when the stream
//! ends.

use vstd::prelude::*;

use crate::accum::{chunk_text, event_of, extract_text};
use crate::decode::{decode, decode_item, is_error_shape};
use crate::json::{Json, JsonV};
use crate::transcript::Transcript;
use crate::wire::{DecodeFailure, DecodeFailureV, Event, ResponseItem, ResponseItemV};

verus! {

/// The text one raw item contributes to the accumulated output: the chunk
/// text for an item that decodes as a chunk, nothing otherwise.
pub open spec fn item_text(j: JsonV) -> Seq<char> {
    match decode_item(j) {
        Ok(ResponseItemV::Chunk(c)) => chunk_text(c),
        _ => Seq::empty(),
    }
}

/// The text a whole stream of raw items accumulates: the concatenation, in
/// arrival order, of what each item contributes.
pub open spec fn stream_text(items: Seq<JsonV>) -> Seq<char>
    decreases items.len(),
{
    if items.len() == 0 {
        Seq::empty()
    } else {
        item_text(items[0]) + stream_text(items.drop_first())
    }
}

pub proof fn lemma_stream_text_append(a: Seq<JsonV>, b: Seq<JsonV>)
    ensures
        stream_text(a + b) == stream_text(a) + stream_text(b),
    decreases a.len(),
{
    if a.len() == 0 {
        assert(a + b =~= b);
        assert(Seq::<char>::empty() + stream_text(b) =~= stream_text(b));
    } else {
        assert((a + b)[0] == a[0]);
        assert((a + b).drop_first() =~= a.drop_first() + b);
        lemma_stream_text_append(a.drop_first(), b);
        assert(item_text(a[0]) + (stream_text(a.drop_first()) + stream_text(b)) =~= (item_text(
            a[0],
        ) + stream_text(a.drop_first())) + stream_text(b));
    }
}

/// Order preservation: the text of a stream grows item by item, in arrival
/// order — after any prefix, the next item appends exactly its own
/// contribution, no more, no less, with no reordering.
pub proof fn lemma_order_preservation(items: Seq<JsonV>)
    ensures
        forall|k: int|
            0 <= k < items.len() ==> stream_text(items.take(k + 1)) == stream_text(
                items.take(k),
            ) + item_text(items[k]),
{
    assert forall|k: int| 0 <= k < items.len() implies stream_text(items.take(k + 1))
        == stream_text(items.take(k)) + item_text(items[k]) by {
        let b = seq![items[k]];
        lemma_stream_text_append(items.take(k), b);
        assert(items.take(k) + b =~= items.take(k + 1));
        assert(b.drop_first() =~= Seq::<JsonV>::empty());
        assert(stream_text(Seq::<JsonV>::empty()) == Seq::<char>::empty());
        assert(stream_text(b) =~= item_text(items[k]));
    }
}

/// An error item, wherever it stands in the stream, contributes no text: the
/// stream around it accumulates exactly what it would accumulate without it,
/// and the items after it are still processed in order.
pub proof fn lemma_error_then_continue(pre: Seq<JsonV>, e: JsonV, post: Seq<JsonV>)
    requires
        is_error_shape(e),
    ensures
        stream_text(pre + seq![e] + post) == stream_text(pre) + stream_text(post),
{
    lemma_stream_text_append(pre, seq![e] + post);
    lemma_stream_text_append(seq![e], post);
    assert((pre + seq![e]) + post =~= pre + (seq![e] + post));
    assert(seq![e].drop_first() =~= Seq::<JsonV>::empty());
    assert(stream_text(Seq::<JsonV>::empty()) == Seq::<char>::empty());
    assert(item_text(e) == Seq::<char>::empty());
    assert(stream_text(seq![e]) =~= Seq::<char>::empty());
    assert(stream_text(pre) + Seq::<char>::empty() + stream_text(post) =~= stream_text(pre)
        + stream_text(post));
}

/// One session of consuming the stream: the transcript of every raw item
/// received, and the text accumulated so far.
#[derive(Debug, PartialEq, Eq)]
pub struct Session {
    pub transcript: Transcript,
    pub text: String,
}

impl Session {
    /// The accumulated text is exactly what the recorded stream contributes.
    pub open spec fn well_formed(self) -> bool {
        self.text@ == stream_text(self.transcript@)
    }

    /// A fresh session: nothing recorded, nothing accumulated.
    pub fn new() -> (r: Session)
        ensures
            r.well_formed(),
            r.transcript@ == Seq::<JsonV>::empty(),
            r.text@ == Seq::<char>::empty(),
    {
        let r = Session { transcript: Transcript::new(), text: String::new() };
        r
    }

    /// Consumes one raw item: records it whatever happens, accumulates the
    /// text it contributes, and reports what it was — a text delta to
    /// surface at once, a service error to report distinctly, or a decode
    /// failure carrying the offending raw value. A failure or an error item
    /// never disturbs what earlier items accumulated, and never stops later
    /// ones from being processed.
    pub fn push(&mut self, raw: Json) -> (r: Result<Event, DecodeFailure>)
        requires
            old(self).well_formed(),
        ensures
            final(self).well_formed(),
            final(self).transcript@ == old(self).transcript@.push(raw@),
            final(self).text@ == old(self).text@ + item_text(raw@),
            match r {
                Ok(ev) => decode_item(raw@) is Ok && ev@ == event_of(decode_item(raw@)->Ok_0),
                Err(f) => decode_item(raw@) == Err::<ResponseItemV, DecodeFailureV>(f@),
            },
    {
        let ghost rawv = raw@;
        let outcome = decode(&raw);
        self.transcript.record(raw);
        proof {
            lemma_stream_text_append(old(self).transcript@, seq![rawv]);
            assert(old(self).transcript@ + seq![rawv] =~= old(self).transcript@.push(rawv));
            assert(seq![rawv].drop_first() =~= Seq::<JsonV>::empty());
            assert(stream_text(Seq::<JsonV>::empty()) == Seq::<char>::empty());
            assert(stream_text(seq![rawv]) =~= item_text(rawv));
        }
        match outcome {
            Ok(ResponseItem::Chunk(c)) => {
                let delta = extract_text(&c);
                self.text.append(delta.as_str());
                Ok(Event::TextDelta(delta))
            },
            Ok(ResponseItem::Error(e)) => {
                proof {
                    assert(item_text(rawv) == Seq::<char>::empty());
                    assert(self.text@ + Seq::<char>::empty() =~= self.text@);
                }
                Ok(Event::ServiceError(e))
            },
            Err(f) => {
                proof {
                    assert(item_text(rawv) == Seq::<char>::empty());
                    assert(self.text@ + Seq::<char>::empty() =~= self.text@);
                }
                Err(f)
            },
        }
    }

    /// Materializes the transcript of this session: the model name, the
    /// request and every recorded raw item, in arrival order.
    pub fn finalize(&self, model: &str, request: &Json) -> (r: Json)
        ensures
            r@ == crate::transcript::transcript_json(model@, request@, self.transcript@),
    {
        self.transcript.finalize(model, request)
    }
}

} // verus!

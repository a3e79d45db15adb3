//! The transcript builder: a faithful, ordered record of one exchange.
//!
//! Every raw item is recorded in arrival order, whether or not it decoded —
//! the transcript reflects what was received, not what was understood. The
//! record is materialized once, after the stream ends, as a single JSON value
//! holding the model name, the original request and every response item; it
//! is a plain in-memory value, valid whether or not persisting it later
//! succeeds. Partial transcripts work the same way: whatever was recorded
//! before a transport failure can still be finalized.

use vstd::prelude::*;

use crate::json::{clone_values, lemma_views_of_index, lemma_views_of_len, views_of, Json, JsonV};

verus! {

/// The shape of a finalized transcript: the model name under `meta`, the
/// request as sent, and the raw response items in arrival order.
pub open spec fn transcript_json(model: Seq<char>, request: JsonV, items: Seq<JsonV>) -> JsonV {
    JsonV::Obj(
        seq![
            ("meta"@, JsonV::Obj(seq![("model"@, JsonV::Str(model))])),
            ("request"@, request),
            ("response"@, JsonV::Arr(items)),
        ],
    )
}

/// The ordered in-memory record of every raw item received so far.
#[derive(Debug, PartialEq, Eq)]
pub struct Transcript {
    items: Vec<Json>,
}

impl View for Transcript {
    type V = Seq<JsonV>;

    closed spec fn view(&self) -> Seq<JsonV> {
        views_of(self.items@)
    }
}

impl Transcript {
    /// An empty record.
    pub fn new() -> (r: Transcript)
        ensures
            r@ == Seq::<JsonV>::empty(),
    {
        let r = Transcript { items: Vec::new() };
        proof {
            broadcast use lemma_views_of_len;

            assert(r@ =~= Seq::<JsonV>::empty());
        }
        r
    }

    /// How many items have been recorded.
    pub fn len(&self) -> (n: usize)
        ensures
            n == self@.len(),
    {
        proof {
            broadcast use lemma_views_of_len;

        }
        self.items.len()
    }

    /// Appends one raw item, regardless of whether it decoded.
    pub fn record(&mut self, raw: Json)
        ensures
            final(self)@ == old(self)@.push(raw@),
    {
        let ghost rawv = raw@;
        self.items.push(raw);
        proof {
            broadcast use lemma_views_of_len, lemma_views_of_index;

            assert(final(self)@ =~= old(self)@.push(rawv));
        }
    }

    /// Materializes the record: the model name, the request and every raw
    /// response item, in arrival order. The record itself is left untouched,
    /// so a failed attempt to persist the result loses nothing.
    pub fn finalize(&self, model: &str, request: &Json) -> (r: Json)
        ensures
            r@ == transcript_json(model@, request@, self@),
    {
        let mut meta_members: Vec<(String, Json)> = Vec::new();
        meta_members.push((String::from_str("model"), Json::Str(model.to_owned())));
        let ghost mmv = meta_members@;
        let meta = Json::Obj(meta_members);
        proof {
            broadcast use crate::json::lemma_member_views_of_len, crate::json::lemma_member_views_of_index;

            assert(meta@ == JsonV::Obj(crate::json::member_views_of(mmv)));
            assert(mmv.len() == 1);
            assert(mmv[0].0@ == "model"@);
            assert(mmv[0].1@ == JsonV::Str(model@));
            assert(meta@->Obj_0 =~~= seq![("model"@, JsonV::Str(model@))]);
        }
        let response = Json::Arr(clone_values(&self.items));
        let ghost metav = meta@;
        let ghost responsev = response@;
        let mut members: Vec<(String, Json)> = Vec::new();
        members.push((String::from_str("meta"), meta));
        members.push((String::from_str("request"), request.deep_clone()));
        members.push((String::from_str("response"), response));
        let ghost msv = members@;
        let r = Json::Obj(members);
        proof {
            broadcast use crate::json::lemma_member_views_of_len, crate::json::lemma_member_views_of_index;

            assert(r@ == JsonV::Obj(crate::json::member_views_of(msv)));
            assert(responsev == JsonV::Arr(self@));
            assert(msv.len() == 3);
            assert(msv[0].0@ == "meta"@ && msv[0].1@ == metav);
            assert(msv[1].0@ == "request"@ && msv[1].1@ == request@);
            assert(msv[2].0@ == "response"@ && msv[2].1@ == responsev);
            assert(r@->Obj_0 =~~= transcript_json(model@, request@, self@)->Obj_0);
        }
        r
    }
}

} // verus!

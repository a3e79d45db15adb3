//! The raw JSON values that the wire carries.
//!
//! The stream hands the decoder one JSON value at a time; the transcript
//! stores the same values untouched. Objects keep their members as a list of
//! key/value pairs in source order, and a lookup takes the first binding of a
//! key. Numbers are modelled as the signed 64-bit integers this protocol uses
//! (error codes, candidate indices, citation offsets).

use vstd::prelude::*;

verus! {

/// The mathematical form of a JSON value; `Json::view` maps into it.
pub ghost enum JsonV {
    Null,
    Bool(bool),
    Int(i64),
    Str(Seq<char>),
    Arr(Seq<JsonV>),
    Obj(Seq<(Seq<char>, JsonV)>),
}

/// One raw JSON value.
#[derive(Debug, PartialEq, Eq)]
pub enum Json {
    Null,
    Bool(bool),
    Int(i64),
    Str(String),
    Arr(Vec<Json>),
    Obj(Vec<(String, Json)>),
}

/// The mathematical value of a raw JSON value.
pub open spec fn json_view(j: Json) -> JsonV
    decreases j,
{
    match j {
        Json::Null => JsonV::Null,
        Json::Bool(b) => JsonV::Bool(b),
        Json::Int(n) => JsonV::Int(n),
        Json::Str(s) => JsonV::Str(s@),
        Json::Arr(items) => JsonV::Arr(views_of(items@)),
        Json::Obj(pairs) => JsonV::Obj(member_views_of(pairs@)),
    }
}

/// The mathematical values of the elements of a JSON array.
pub open spec fn views_of(items: Seq<Json>) -> Seq<JsonV>
    decreases items,
{
    if items.len() == 0 {
        Seq::empty()
    } else {
        seq![json_view(items[0])] + views_of(items.drop_first())
    }
}

/// The mathematical values of the members of a JSON object.
pub open spec fn member_views_of(pairs: Seq<(String, Json)>) -> Seq<(Seq<char>, JsonV)>
    decreases pairs,
{
    if pairs.len() == 0 {
        Seq::empty()
    } else {
        seq![(pairs[0].0@, json_view(pairs[0].1))] + member_views_of(pairs.drop_first())
    }
}

pub broadcast proof fn lemma_views_of_len(items: Seq<Json>)
    ensures
        (#[trigger] views_of(items)).len() == items.len(),
    decreases items,
{
    if items.len() > 0 {
        lemma_views_of_len(items.drop_first());
    }
}

pub broadcast proof fn lemma_views_of_index(items: Seq<Json>, i: int)
    requires
        0 <= i < items.len(),
    ensures
        #[trigger] views_of(items)[i] == items[i]@,
    decreases items,
{
    lemma_views_of_len(items.drop_first());
    if i > 0 {
        lemma_views_of_index(items.drop_first(), i - 1);
    }
}

pub broadcast proof fn lemma_member_views_of_len(pairs: Seq<(String, Json)>)
    ensures
        (#[trigger] member_views_of(pairs)).len() == pairs.len(),
    decreases pairs,
{
    if pairs.len() > 0 {
        lemma_member_views_of_len(pairs.drop_first());
    }
}

pub broadcast proof fn lemma_member_views_of_index(pairs: Seq<(String, Json)>, i: int)
    requires
        0 <= i < pairs.len(),
    ensures
        #[trigger] member_views_of(pairs)[i] == (pairs[i].0@, pairs[i].1@),
    decreases pairs,
{
    lemma_member_views_of_len(pairs.drop_first());
    if i > 0 {
        lemma_member_views_of_index(pairs.drop_first(), i - 1);
    }
}

impl View for Json {
    type V = JsonV;

    open spec fn view(&self) -> JsonV {
        json_view(*self)
    }
}

impl DeepView for Json {
    type V = JsonV;

    open spec fn deep_view(&self) -> JsonV {
        self.view()
    }
}

/// The first value bound to `key` among the members `pairs`.
pub open spec fn lookup(pairs: Seq<(Seq<char>, JsonV)>, key: Seq<char>) -> Option<JsonV>
    decreases pairs.len(),
{
    if pairs.len() == 0 {
        None
    } else if pairs[0].0 == key {
        Some(pairs[0].1)
    } else {
        lookup(pairs.drop_first(), key)
    }
}

impl JsonV {
    /// The value of member `key`, for an object value.
    pub open spec fn field(self, key: Seq<char>) -> Option<JsonV> {
        lookup(self->Obj_0, key)
    }
}

impl Json {
    /// A structurally identical copy of this value.
    pub fn deep_clone(&self) -> (r: Json)
        ensures
            r@ == self@,
        decreases *self,
    {
        match self {
            Json::Null => Json::Null,
            Json::Bool(b) => Json::Bool(*b),
            Json::Int(n) => Json::Int(*n),
            Json::Str(s) => Json::Str(s.clone()),
            Json::Arr(items) => {
                let r = Json::Arr(clone_values(items));
                assert(r@->Arr_0 =~= self@->Arr_0);
                r
            },
            Json::Obj(pairs) => {
                let r = Json::Obj(clone_members(pairs));
                assert(r@->Obj_0 =~= self@->Obj_0);
                r
            },
        }
    }
}

/// A copy of the elements of a JSON array.
#[verifier::loop_isolation(false)]
pub(crate) fn clone_values(items: &Vec<Json>) -> (r: Vec<Json>)
    ensures
        views_of(r@) == views_of(items@),
    decreases items@,
{
    broadcast use lemma_views_of_len, lemma_views_of_index;

    let mut out: Vec<Json> = Vec::new();
    let mut i: usize = 0;
    while i < items.len()
        invariant
            i <= items@.len(),
            out@.len() == i,
            forall|k: int| 0 <= k < i ==> out@[k]@ == items@[k]@,
        decreases items@.len() - i,
    {
        assert(decreases_to!(items@ => items@[i as int]));
        out.push(items[i].deep_clone());
        i += 1;
    }
    assert(views_of(out@) =~= views_of(items@));
    out
}

/// A copy of the members of a JSON object.
#[verifier::loop_isolation(false)]
fn clone_members(pairs: &Vec<(String, Json)>) -> (r: Vec<(String, Json)>)
    ensures
        member_views_of(r@) == member_views_of(pairs@),
    decreases pairs@,
{
    broadcast use lemma_member_views_of_len, lemma_member_views_of_index;

    let mut out: Vec<(String, Json)> = Vec::new();
    let mut i: usize = 0;
    while i < pairs.len()
        invariant
            i <= pairs@.len(),
            out@.len() == i,
            forall|k: int|
                0 <= k < i ==> out@[k].0@ == pairs@[k].0@ && out@[k].1@ == pairs@[k].1@,
        decreases pairs@.len() - i,
    {
        assert(decreases_to!(pairs@ => pairs@[i as int].1));
        out.push((pairs[i].0.clone(), pairs[i].1.deep_clone()));
        i += 1;
    }
    assert(member_views_of(out@) =~= member_views_of(pairs@));
    out
}

/// Whether two string slices hold the same characters.
pub fn str_eq(a: &str, b: &str) -> (r: bool)
    ensures
        r == (a@ == b@),
{
    let sa: String = a.to_owned();
    let sb: String = b.to_owned();
    sa == sb
}

/// Looks `key` up among the members of an object, front to back.
#[verifier::loop_isolation(false)]
pub fn get<'a>(pairs: &'a Vec<(String, Json)>, key: &str) -> (r: Option<&'a Json>)
    ensures
        match r {
            Some(v) => lookup(member_views_of(pairs@), key@) == Some(v@),
            None => lookup(member_views_of(pairs@), key@) is None,
        },
{
    broadcast use lemma_member_views_of_len, lemma_member_views_of_index;

    let ghost dv = member_views_of(pairs@);
    let mut i: usize = 0;
    assert(dv.skip(0) =~= dv);
    while i < pairs.len()
        invariant
            i <= pairs@.len(),
            lookup(dv, key@) == lookup(dv.skip(i as int), key@),
        decreases pairs@.len() - i,
    {
        assert(dv.skip(i as int)[0] == dv[i as int]);
        if str_eq(pairs[i].0.as_str(), key) {
            return Some(&pairs[i].1);
        }
        assert(dv.skip(i as int).drop_first() =~= dv.skip(i + 1));
        i += 1;
    }
    assert(dv.skip(i as int).len() == 0);
    None
}

} // verus!

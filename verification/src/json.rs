//! The JSON that commands read from the shell and hand back as results.

use serde_json::Value;
use vstd::prelude::*;

use crate::text::{same, texts};

verus! {

/// A JSON value.
#[derive(Debug)]
pub enum Json {
    Null,
    Bool(bool),
    Number(u64),
    Text(String),
    Array(Vec<Json>),
    Object(Vec<(String, Json)>),
    /// A number as it was read, in JSON's writing of it.
    Numeral(String),
}

#[verifier::ext_equal]
pub enum JsonView {
    Null,
    Bool(bool),
    Number(nat),
    Text(Seq<char>),
    Array(Seq<JsonView>),
    Object(Seq<(Seq<char>, JsonView)>),
    Numeral(Seq<char>),
}

impl Json {
    /// The value as a mathematical tree.
    pub open spec fn view(&self) -> JsonView
        decreases self,
    {
        match self {
            Json::Null => JsonView::Null,
            Json::Bool(b) => JsonView::Bool(*b),
            Json::Number(n) => JsonView::Number(*n as nat),
            Json::Text(s) => JsonView::Text(s@),
            Json::Array(items) => JsonView::Array(
                Seq::new(
                    items@.len(),
                    |i: int|
                        if 0 <= i < items@.len() {
                            items[i].view()
                        } else {
                            JsonView::Null
                        },
                ),
            ),
            Json::Object(list) => JsonView::Object(
                Seq::new(
                    list@.len(),
                    |i: int|
                        if 0 <= i < list@.len() {
                            (list[i].0@, list[i].1.view())
                        } else {
                            (Seq::empty(), JsonView::Null)
                        },
                ),
            ),
            Json::Numeral(s) => JsonView::Numeral(s@),
        }
    }
}

/// The members that a list of keys and values holds.
pub open spec fn members(list: Seq<(String, Json)>) -> Seq<(Seq<char>, JsonView)> {
    list.map_values(|m: (String, Json)| (m.0@, m.1@))
}

/// Texts as JSON values.
pub open spec fn text_values(list: Seq<Seq<char>>) -> Seq<JsonView> {
    list.map_values(|s: Seq<char>| JsonView::Text(s))
}

/// The value of the first member called `key`, null where there is none.
pub open spec fn value_in(list: Seq<(Seq<char>, JsonView)>, key: Seq<char>) -> JsonView
    decreases list.len(),
{
    if list.len() == 0 {
        JsonView::Null
    } else if list.first().0 == key {
        list.first().1
    } else {
        value_in(list.drop_first(), key)
    }
}

/// The value of the member `key` of `document`, null where it has none.
pub open spec fn member(document: JsonView, key: Seq<char>) -> JsonView {
    match document {
        JsonView::Object(list) => value_in(list, key),
        _ => JsonView::Null,
    }
}

/// The value under a key is that of the first member with that key.
pub(crate) proof fn lemma_value_at(list: Seq<(Seq<char>, JsonView)>, at: int)
    requires
        0 <= at < list.len(),
        forall|i: int| 0 <= i < at ==> (#[trigger] list[i]).0 != list[at].0,
    ensures
        value_in(list, list[at].0) == list[at].1,
    decreases at,
{
    if at > 0 {
        assert(list[0].0 != list[at].0);
        let rest = list.drop_first();
        assert(rest[at - 1] == list[at]);
        assert forall|i: int| 0 <= i < at - 1 implies (#[trigger] rest[i]).0 != rest[at - 1].0 by {
            assert(rest[i] == list[i + 1]);
        }
        lemma_value_at(rest, at - 1);
    }
}

/// An object with the given members.
pub fn object(list: Vec<(String, Json)>) -> (r: Json)
    ensures
        r@ == JsonView::Object(members(list@)),
{
    let r = Json::Object(list);
    assert(r@->Object_0 =~= members(list@));
    r
}

/// One member of an object.
pub fn entry(key: &str, value: Json) -> (r: (String, Json))
    ensures
        r.0@ == key@,
        r.1@ == value@,
{
    (key.to_owned(), value)
}

/// A text as a JSON value.
pub fn text(s: &str) -> (r: Json)
    ensures
        r@ == JsonView::Text(s@),
{
    Json::Text(s.to_owned())
}

/// A list of texts as a JSON array.
pub fn text_array(list: &Vec<String>) -> (r: Json)
    ensures
        r@ == JsonView::Array(text_values(texts(list@))),
{
    let mut out: Vec<Json> = Vec::new();
    let mut i: usize = 0;
    while i < list.len()
        invariant
            i <= list@.len(),
            out@.len() == i,
            forall|k: int| 0 <= k < i ==> (#[trigger] out[k])@ == JsonView::Text(list@[k]@),
        decreases list.len() - i,
    {
        out.push(text(list[i].as_str()));
        i += 1;
    }
    let r = Json::Array(out);
    assert(r@->Array_0 =~= text_values(texts(list@)));
    r
}

impl Json {
    /// A value of the same content.
    #[verifier::loop_isolation(false)]
    pub fn copy(&self) -> (r: Json)
        ensures
            r@ == self@,
        decreases self,
    {
        match self {
            Json::Null => Json::Null,
            Json::Bool(b) => Json::Bool(*b),
            Json::Number(n) => Json::Number(*n),
            Json::Text(s) => Json::Text(s.clone()),
            Json::Array(items) => {
                let mut out: Vec<Json> = Vec::new();
                let mut i: usize = 0;
                while i < items.len()
                    invariant
                        *self == Json::Array(*items),
                        i <= items@.len(),
                        out@.len() == i,
                        forall|k: int| 0 <= k < i ==> (#[trigger] out[k])@ == items[k]@,
                    decreases items.len() - i,
                {
                    out.push(items[i].copy());
                    i += 1;
                }
                let r = Json::Array(out);
                assert(r@->Array_0 =~= self@->Array_0);
                r
            },
            Json::Object(list) => {
                let mut out: Vec<(String, Json)> = Vec::new();
                let mut i: usize = 0;
                while i < list.len()
                    invariant
                        *self == Json::Object(*list),
                        i <= list@.len(),
                        out@.len() == i,
                        forall|k: int|
                            0 <= k < i ==> (#[trigger] out[k]).0@ == list[k].0@ && out[k].1@
                                == list[k].1@,
                    decreases list.len() - i,
                {
                    out.push((list[i].0.clone(), list[i].1.copy()));
                    i += 1;
                }
                let r = Json::Object(out);
                assert(r@->Object_0 =~= self@->Object_0);
                r
            },
            Json::Numeral(s) => Json::Numeral(s.clone()),
        }
    }

    /// The value of the member `key`, null where there is none.
    pub fn get(&self, key: &str) -> (r: Json)
        ensures
            r@ == member(self@, key@),
    {
        match self {
            Json::Object(list) => {
                let mut i: usize = 0;
                let ghost all = members(list@);
                assert(all.skip(0) =~= all);
                assert(self@->Object_0 =~= all);
                while i < list.len()
                    invariant
                        i <= list@.len(),
                        all == members(list@),
                        self@ == JsonView::Object(all),
                        value_in(all, key@) == value_in(all.skip(i as int), key@),
                    decreases list.len() - i,
                {
                    assert(all.skip(i as int).first() == all[i as int]);
                    if same(list[i].0.as_str(), key) {
                        return list[i].1.copy();
                    }
                    assert(all.skip(i as int).drop_first() =~= all.skip(i + 1));
                    i += 1;
                }
                Json::Null
            },
            _ => Json::Null,
        }
    }

    /// Whether this is a JSON object.
    pub fn is_object(&self) -> (r: bool)
        ensures
            r == (self@ is Object),
    {
        match self {
            Json::Object(_) => true,
            _ => false,
        }
    }
}

/// The error of a text that is not JSON, or not JSON of the wanted shape.
#[verifier::external_type_specification]
#[verifier::external_body]
pub struct ExJsonError(serde_json::Error);

/// The value that a text decodes to, if it is JSON.
pub uninterp spec fn json_document(source: Seq<char>) -> Option<JsonView>;

/// The strings that a text decodes to, if it is a JSON array of strings.
pub uninterp spec fn json_texts(source: Seq<char>) -> Option<Seq<Seq<char>>>;

/// `serde_json::from_str` for any JSON value: which value it yields, and whether
/// it yields one, depends on the text alone. The value comes out as a tree of the
/// same shape: the items of an array in order, the members of an object in the
/// order of the map that `serde_json` keeps them in, and a number as `serde_json`
/// writes it. A value inside another is decoded from the text that `serde_json`
/// writes for it, which reads back as the same value.
#[verifier::external_body]
pub(crate) fn decode_document(source: &str) -> (r: Result<Json, serde_json::Error>)
    ensures
        match r {
            Ok(document) => json_document(source@) == Some(document@),
            Err(_) => json_document(source@) is None,
        },
{
    let inner = |value: &Value| decode_document(&value.to_string());
    Ok(match serde_json::from_str(source)? {
        Value::Null => Json::Null,
        Value::Bool(b) => Json::Bool(b),
        Value::Number(n) => Json::Numeral(n.to_string()),
        Value::String(s) => Json::Text(s),
        Value::Array(items) => {
            Json::Array(items.iter().map(inner).collect::<Result<_, _>>()?)
        },
        Value::Object(map) => Json::Object(
            map.into_iter().map(|(key, value)| Ok((key, inner(&value)?))).collect::<
                Result<_, serde_json::Error>,
            >()?,
        ),
    })
}

/// `serde_json::from_str` for an array of strings: which strings it yields, and
/// whether it yields any, depends on the text alone.
#[verifier::external_body]
pub(crate) fn decode_texts(source: &str) -> (r: Result<Vec<String>, serde_json::Error>)
    ensures
        match r {
            Ok(list) => json_texts(source@) == Some(texts(list@)),
            Err(_) => json_texts(source@) is None,
        },
{
    serde_json::from_str(source)
}

} // verus!

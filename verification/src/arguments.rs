//! Reading the arguments of a call.
use vstd::prelude::*;

use crate::json::{get, lookup, Json};
use crate::text::{lemma_texts_push, texts, Text};

verus! {

/// The member of an object with a key.
pub open spec fn member(args: Json, key: Text) -> Option<Json> {
    match args {
        Json::Object(members) => lookup(members@, key),
        _ => None,
    }
}

/// The member with a key, if it is a text.
pub open spec fn text_member(args: Json, key: Text) -> Option<Text> {
    match member(args, key) {
        Some(Json::Str(s)) => Some(s@),
        _ => None,
    }
}

/// The texts among the items of an array.
pub open spec fn text_items(items: Seq<Json>) -> Seq<Text>
    decreases items.len(),
{
    if items.len() == 0 {
        Seq::empty()
    } else {
        match items.last() {
            Json::Str(s) => text_items(items.drop_last()).push(s@),
            _ => text_items(items.drop_last()),
        }
    }
}

/// The texts in the array with a key; none if there is no such array.
pub open spec fn list_member(args: Json, key: Text) -> Seq<Text> {
    match member(args, key) {
        Some(Json::Array(items)) => text_items(items@),
        _ => Seq::empty(),
    }
}

pub fn member_of<'a>(args: &'a Json, key: &str) -> (r: Option<&'a Json>)
    ensures
        match r {
            Some(v) => member(*args, key@) == Some(*v),
            None => member(*args, key@) is None,
        },
{
    match args {
        Json::Object(members) => get(members.as_slice(), key),
        _ => None,
    }
}

pub fn text_of(args: &Json, key: &str) -> (r: Option<String>)
    ensures
        match r {
            Some(s) => text_member(*args, key@) == Some(s@),
            None => text_member(*args, key@) is None,
        },
{
    match member_of(args, key) {
        Some(Json::Str(s)) => Some(s.clone()),
        _ => None,
    }
}

pub fn list_of(args: &Json, key: &str) -> (out: Vec<String>)
    ensures
        texts(out@) == list_member(*args, key@),
{
    let mut out: Vec<String> = Vec::new();
    proof {
        assert(texts(out@) =~= Seq::empty());
    }
    if let Some(Json::Array(items)) = member_of(args, key) {
        let mut i: usize = 0;
        proof {
            assert(items@.take(0) =~= Seq::empty());
        }
        while i < items.len()
            invariant
                i <= items.len(),
                texts(out@) == text_items(items@.take(i as int)),
            decreases items.len() - i,
        {
            proof {
                assert(items@.take(i + 1).drop_last() =~= items@.take(i as int));
            }
            if let Json::Str(s) = &items[i] {
                let item = s.clone();
                proof {
                    lemma_texts_push(out@, item);
                }
                out.push(item);
            }
            i += 1;
        }
        proof {
            assert(items@.take(items@.len() as int) =~= items@);
        }
    }
    out
}

} // verus!

//! JSON values, their size estimate and their compact text.
use vstd::prelude::*;
use vstd::string::*;

use crate::text::{chars_of, join, joined, lemma_texts_push, same, texts, Text};
use crate::widths::{byte_len, bytes_in};

verus! {

/// A JSON value. A number is kept as its text.
#[derive(Debug)]
pub enum Json {
    Null,
    Bool(bool),
    Number(String),
    Str(String),
    Array(Vec<Json>),
    Object(Vec<JsonMember>),
}

/// A member of an object.
#[derive(Debug)]
pub struct JsonMember {
    pub key: String,
    pub value: Json,
}

/// What a JSON value says.
pub enum JsonView {
    Null,
    Bool(bool),
    Number(Text),
    Str(Text),
    Array(Seq<JsonView>),
    Object(Seq<(Text, JsonView)>),
}

pub open spec fn json_view(j: Json) -> JsonView
    decreases j,
{
    match j {
        Json::Null => JsonView::Null,
        Json::Bool(b) => JsonView::Bool(b),
        Json::Number(n) => JsonView::Number(n@),
        Json::Str(s) => JsonView::Str(s@),
        Json::Array(items) => JsonView::Array(items_view(items@)),
        Json::Object(members) => JsonView::Object(members_view(members@)),
    }
}

pub open spec fn items_view(items: Seq<Json>) -> Seq<JsonView>
    decreases items,
{
    if items.len() == 0 {
        Seq::empty()
    } else {
        items_view(items.drop_last()).push(json_view(items.last()))
    }
}

pub open spec fn members_view(members: Seq<JsonMember>) -> Seq<(Text, JsonView)>
    decreases members,
{
    if members.len() == 0 {
        Seq::empty()
    } else {
        members_view(members.drop_last()).push((members.last().key@, json_view(members.last().value)))
    }
}

impl View for Json {
    type V = JsonView;

    open spec fn view(&self) -> JsonView {
        json_view(*self)
    }
}

// ---------------------------------------------------------------------------
// Size
// ---------------------------------------------------------------------------

pub open spec fn needs_escape(c: char) -> bool {
    c == '"' || c == '\\' || c == '\n' || c == '\r' || c == '\t'
}

/// How many characters of a text need an escape.
pub open spec fn escapes(s: Text) -> nat
    decreases s.len(),
{
    if s.len() == 0 {
        0
    } else {
        escapes(s.drop_last()) + if needs_escape(s.last()) { 1nat } else { 0nat }
    }
}

/// The estimated size of the compact text of a value, in bytes.
pub open spec fn json_size(j: Json) -> nat
    decreases j,
{
    match j {
        Json::Null => 4,
        Json::Bool(b) => if b {
            4
        } else {
            5
        },
        Json::Number(n) => byte_len(n@),
        Json::Str(s) => byte_len(s@) + escapes(s@) + 2,
        Json::Array(items) => 2 + items_size(items@) + commas(items@.len()),
        Json::Object(members) => 2 + members_size(members@) + commas(members@.len()),
    }
}

pub open spec fn commas(n: nat) -> nat {
    if n == 0 {
        0
    } else {
        (n - 1) as nat
    }
}

pub open spec fn items_size(items: Seq<Json>) -> nat
    decreases items,
{
    if items.len() == 0 {
        0
    } else {
        items_size(items.drop_last()) + json_size(items.last())
    }
}

pub open spec fn members_size(members: Seq<JsonMember>) -> nat
    decreases members,
{
    if members.len() == 0 {
        0
    } else {
        members_size(members.drop_last()) + (byte_len(members.last().key@) + 3 + json_size(
            members.last().value,
        ))
    }
}

/// A size that saturates at the largest `usize`.
pub open spec fn capped(n: nat) -> nat {
    if n <= usize::MAX {
        n
    } else {
        usize::MAX as nat
    }
}

fn plus(a: usize, b: usize) -> (r: usize)
    ensures
        r == capped(a as nat + b as nat),
{
    a.saturating_add(b)
}

fn count_escapes(s: &str) -> (r: usize)
    ensures
        r == escapes(s@),
{
    let cs = chars_of(s);
    let mut n: usize = 0;
    let mut i: usize = 0;
    while i < cs.len()
        invariant
            i <= cs.len(),
            cs@ == s@,
            n == escapes(s@.take(i as int)),
            n <= i,
        decreases cs.len() - i,
    {
        proof {
            assert(s@.take(i + 1).drop_last() =~= s@.take(i as int));
        }
        let c: char = cs[i];
        if c == '"' || c == '\\' || c == '\n' || c == '\r' || c == '\t' {
            n += 1;
        }
        i += 1;
    }
    proof {
        assert(s@.take(s@.len() as int) =~= s@);
    }
    n
}

/// The estimated size of the compact text of a value, in bytes, found without
/// writing the text. It stops growing at the largest `usize`.
pub fn estimate_json_size(value: &Json) -> (r: usize)
    ensures
        r == capped(json_size(*value)),
    decreases value,
{
    match value {
        Json::Null => 4,
        Json::Bool(b) => if *b {
            4
        } else {
            5
        },
        Json::Number(n) => bytes_in(n.as_str()),
        Json::Str(s) => plus(plus(bytes_in(s.as_str()), count_escapes(s.as_str())), 2),
        Json::Array(items) => {
            let mut total: usize = 0;
            let mut i: usize = 0;
            while i < items.len()
                invariant
                    i <= items.len(),
                    *value == Json::Array(*items),
                    total == capped(items_size(items@.take(i as int))),
                decreases items.len() - i,
            {
                proof {
                    assert(items@.take(i + 1).drop_last() =~= items@.take(i as int));
                    assert(decreases_to!(*value => value->Array_0));
                    assert(decreases_to!(*items => items@));
                    assert(decreases_to!(items@ => items@[i as int]));
                }
                total = plus(total, estimate_json_size(&items[i]));
                i += 1;
            }
            proof {
                assert(items@.take(items@.len() as int) =~= items@);
            }
            let commas: usize = if items.len() == 0 {
                0
            } else {
                items.len() - 1
            };
            plus(plus(2, total), commas)
        },
        Json::Object(members) => {
            let mut total: usize = 0;
            let mut i: usize = 0;
            while i < members.len()
                invariant
                    i <= members.len(),
                    *value == Json::Object(*members),
                    total == capped(members_size(members@.take(i as int))),
                decreases members.len() - i,
            {
                proof {
                    assert(members@.take(i + 1).drop_last() =~= members@.take(i as int));
                    assert(decreases_to!(*value => value->Object_0));
                    assert(decreases_to!(*members => members@));
                    assert(decreases_to!(members@ => members@[i as int]));
                    assert(decreases_to!(members@[i as int] => members@[i as int].value));
                }
                let one: usize = plus(
                    plus(bytes_in(members[i].key.as_str()), 3),
                    estimate_json_size(&members[i].value),
                );
                total = plus(total, one);
                i += 1;
            }
            proof {
                assert(members@.take(members@.len() as int) =~= members@);
            }
            let commas: usize = if members.len() == 0 {
                0
            } else {
                members.len() - 1
            };
            plus(plus(2, total), commas)
        },
    }
}

// ---------------------------------------------------------------------------
// Compact text
// ---------------------------------------------------------------------------

pub open spec fn hex_digit(n: int) -> char {
    if n < 10 {
        (48 + n) as char
    } else {
        (87 + n) as char
    }
}

/// How a character is written inside a JSON string.
pub open spec fn escaped_char(c: char) -> Text {
    let u = c as u32;
    if c == '"' {
        seq!['\\', '"']
    } else if c == '\\' {
        seq!['\\', '\\']
    } else if u == 8 {
        seq!['\\', 'b']
    } else if u == 9 {
        seq!['\\', 't']
    } else if u == 10 {
        seq!['\\', 'n']
    } else if u == 12 {
        seq!['\\', 'f']
    } else if u == 13 {
        seq!['\\', 'r']
    } else if u < 32 {
        seq!['\\', 'u', '0', '0', hex_digit(u as int / 16), hex_digit(u as int % 16)]
    } else {
        seq![c]
    }
}

pub open spec fn escaped(s: Text) -> Text
    decreases s.len(),
{
    if s.len() == 0 {
        Seq::empty()
    } else {
        escaped(s.drop_last()) + escaped_char(s.last())
    }
}

/// A text as a JSON string.
pub open spec fn quoted(s: Text) -> Text {
    seq!['"'] + escaped(s) + seq!['"']
}

/// `serde_json::to_string` on a `str`: the text between quotes, with `"`,
/// `\` and the control characters below U+0020 escaped and nothing else.
#[verifier::external_body]
pub(crate) fn quote(s: &str) -> (r: String)
    ensures
        r@ == quoted(s@),
{
    serde_json::to_string(s).unwrap_or_default()
}

/// The compact text of a value: no white space, members in their order.
pub open spec fn json_text(j: JsonView) -> Text
    decreases j,
{
    match j {
        JsonView::Null => "null"@,
        JsonView::Bool(b) => if b {
            "true"@
        } else {
            "false"@
        },
        JsonView::Number(n) => n,
        JsonView::Str(s) => quoted(s),
        JsonView::Array(items) => "["@ + joined(items_text(items), ","@) + "]"@,
        JsonView::Object(members) => "{"@ + joined(members_text(members), ","@) + "}"@,
    }
}

pub open spec fn items_text(items: Seq<JsonView>) -> Seq<Text>
    decreases items,
{
    if items.len() == 0 {
        Seq::empty()
    } else {
        items_text(items.drop_last()).push(json_text(items.last()))
    }
}

pub open spec fn members_text(members: Seq<(Text, JsonView)>) -> Seq<Text>
    decreases members,
{
    if members.len() == 0 {
        Seq::empty()
    } else {
        members_text(members.drop_last()).push(
            quoted(members.last().0) + ":"@ + json_text(members.last().1),
        )
    }
}

/// The items of an array one more.
pub proof fn lemma_items_push(items: Seq<Json>, item: Json)
    ensures
        items_view(items.push(item)) == items_view(items).push(json_view(item)),
{
    assert(items.push(item).drop_last() =~= items);
}

/// The members of an object one more.
pub proof fn lemma_members_push(members: Seq<JsonMember>, member: JsonMember)
    ensures
        members_view(members.push(member)) == members_view(members).push(
            (member.key@, json_view(member.value)),
        ),
{
    assert(members.push(member).drop_last() =~= members);
}

/// The compact text of a value.
pub fn to_text(value: &Json) -> (r: String)
    ensures
        r@ == json_text(value@),
    decreases value,
{
    match value {
        Json::Null => "null".to_owned(),
        Json::Bool(b) => if *b {
            "true".to_owned()
        } else {
            "false".to_owned()
        },
        Json::Number(n) => n.clone(),
        Json::Str(s) => quote(s.as_str()),
        Json::Array(items) => {
            let mut parts: Vec<String> = Vec::new();
            let mut i: usize = 0;
            proof {
                assert(texts(parts@) =~= Seq::empty());
            }
            while i < items.len()
                invariant
                    i <= items.len(),
                    *value == Json::Array(*items),
                    texts(parts@) == items_text(items_view(items@.take(i as int))),
                decreases items.len() - i,
            {
                proof {
                    assert(items@.take(i + 1) =~= items@.take(i as int).push(items@[i as int]));
                    lemma_items_push(items@.take(i as int), items@[i as int]);
                    let head = items_view(items@.take(i as int));
                    assert(head.push(json_view(items@[i as int])).drop_last() =~= head);
                    assert(decreases_to!(*value => value->Array_0));
                    assert(decreases_to!(*items => items@));
                    assert(decreases_to!(items@ => items@[i as int]));
                }
                let part = to_text(&items[i]);
                proof {
                    lemma_texts_push(parts@, part);
                }
                parts.push(part);
                i += 1;
            }
            proof {
                assert(items@.take(items@.len() as int) =~= items@);
            }
            wrapped("[", parts.as_slice(), "]")
        },
        Json::Object(members) => {
            let mut parts: Vec<String> = Vec::new();
            let mut i: usize = 0;
            proof {
                assert(texts(parts@) =~= Seq::empty());
            }
            while i < members.len()
                invariant
                    i <= members.len(),
                    *value == Json::Object(*members),
                    texts(parts@) == members_text(members_view(members@.take(i as int))),
                decreases members.len() - i,
            {
                proof {
                    assert(members@.take(i + 1) =~= members@.take(i as int).push(members@[i as int]));
                    lemma_members_push(members@.take(i as int), members@[i as int]);
                    let head = members_view(members@.take(i as int));
                    assert(head.push(
                        (members@[i as int].key@, json_view(members@[i as int].value)),
                    ).drop_last() =~= head);
                    assert(decreases_to!(*value => value->Object_0));
                    assert(decreases_to!(*members => members@));
                    assert(decreases_to!(members@ => members@[i as int]));
                    assert(decreases_to!(members@[i as int] => members@[i as int].value));
                }
                let mut part = quote(members[i].key.as_str());
                let tail = to_text(&members[i].value);
                part.append(":");
                part.append(tail.as_str());
                proof {
                    lemma_texts_push(parts@, part);
                }
                parts.push(part);
                i += 1;
            }
            proof {
                assert(members@.take(members@.len() as int) =~= members@);
            }
            wrapped("{", parts.as_slice(), "}")
        },
    }
}

fn wrapped(open: &str, parts: &[String], close: &str) -> (r: String)
    ensures
        r@ == open@ + joined(texts(parts@), ","@) + close@,
{
    let mut r = open.to_owned();
    let inner = join(parts, ",");
    r.append(inner.as_str());
    r.append(close);
    r
}

/// A value, if there is one.
pub open spec fn opt_json(value: Option<Json>) -> Option<JsonView> {
    match value {
        Some(value) => Some(value@),
        None => None,
    }
}

/// A copy of a value.
pub fn copy_json(value: &Json) -> (r: Json)
    ensures
        r@ == value@,
    decreases value,
{
    match value {
        Json::Null => Json::Null,
        Json::Bool(b) => Json::Bool(*b),
        Json::Number(n) => Json::Number(n.clone()),
        Json::Str(s) => Json::Str(s.clone()),
        Json::Array(items) => {
            let mut out: Vec<Json> = Vec::new();
            let mut i: usize = 0;
            proof {
                assert(items@.take(0) =~= out@);
            }
            while i < items.len()
                invariant
                    i <= items.len(),
                    *value == Json::Array(*items),
                    items_view(out@) == items_view(items@.take(i as int)),
                decreases items.len() - i,
            {
                proof {
                    assert(items@.take(i + 1) =~= items@.take(i as int).push(items@[i as int]));
                    lemma_items_push(items@.take(i as int), items@[i as int]);
                    assert(decreases_to!(*value => value->Array_0));
                    assert(decreases_to!(*items => items@));
                    assert(decreases_to!(items@ => items@[i as int]));
                }
                let item = copy_json(&items[i]);
                proof {
                    lemma_items_push(out@, item);
                }
                out.push(item);
                i += 1;
            }
            proof {
                assert(items@.take(items@.len() as int) =~= items@);
            }
            Json::Array(out)
        },
        Json::Object(members) => {
            let mut out: Vec<JsonMember> = Vec::new();
            let mut i: usize = 0;
            proof {
                assert(members@.take(0) =~= out@);
            }
            while i < members.len()
                invariant
                    i <= members.len(),
                    *value == Json::Object(*members),
                    members_view(out@) == members_view(members@.take(i as int)),
                decreases members.len() - i,
            {
                proof {
                    assert(members@.take(i + 1) =~= members@.take(i as int).push(members@[i as int]));
                    lemma_members_push(members@.take(i as int), members@[i as int]);
                    assert(decreases_to!(*value => value->Object_0));
                    assert(decreases_to!(*members => members@));
                    assert(decreases_to!(members@ => members@[i as int]));
                    assert(decreases_to!(members@[i as int] => members@[i as int].value));
                }
                let copied = copy_json(&members[i].value);
                let member = JsonMember { key: members[i].key.clone(), value: copied };
                proof {
                    lemma_members_push(out@, member);
                }
                out.push(member);
                i += 1;
            }
            proof {
                assert(members@.take(members@.len() as int) =~= members@);
            }
            Json::Object(out)
        },
    }
}

// ---------------------------------------------------------------------------
// Building and looking up
// ---------------------------------------------------------------------------

pub fn str_value(s: &str) -> (r: Json)
    ensures
        r@ == JsonView::Str(s@),
{
    Json::Str(s.to_owned())
}

/// The array of the texts of a list.
pub fn str_array(list: &[String]) -> (r: Json)
    ensures
        r@ == str_array_view(texts(list@)),
{
    let mut items: Vec<Json> = Vec::new();
    let ghost all = texts(list@);
    let mut i: usize = 0;
    proof {
        assert(items_view(items@) =~= all.take(0).map_values(|t: Text| JsonView::Str(t)));
    }
    while i < list.len()
        invariant
            i <= list.len(),
            all == texts(list@),
            items_view(items@) == all.take(i as int).map_values(|t: Text| JsonView::Str(t)),
        decreases list.len() - i,
    {
        let item = Json::Str(list[i].clone());
        proof {
            lemma_items_push(items@, item);
            assert(all.take(i + 1).map_values(|t: Text| JsonView::Str(t)) =~= all.take(
                i as int,
            ).map_values(|t: Text| JsonView::Str(t)).push(JsonView::Str(all[i as int])));
        }
        items.push(item);
        i += 1;
    }
    proof {
        assert(all.take(all.len() as int) =~= all);
    }
    Json::Array(items)
}

pub open spec fn str_array_view(list: Seq<Text>) -> JsonView {
    JsonView::Array(list.map_values(|t: Text| JsonView::Str(t)))
}

/// Appends a member.
pub fn put(members: &mut Vec<JsonMember>, key: &str, value: Json)
    ensures
        members_view(final(members)@) == members_view(old(members)@).push((key@, value@)),
{
    let member = JsonMember { key: key.to_owned(), value };
    proof {
        lemma_members_push(members@, member);
    }
    members.push(member);
}

/// The value of the last member with a key, as in an object where later
/// members replace earlier ones.
pub open spec fn lookup(members: Seq<JsonMember>, key: Text) -> Option<Json>
    decreases members.len(),
{
    if members.len() == 0 {
        None
    } else if members.last().key@ == key {
        Some(members.last().value)
    } else {
        lookup(members.drop_last(), key)
    }
}

pub fn get<'a>(members: &'a [JsonMember], key: &str) -> (r: Option<&'a Json>)
    ensures
        match r {
            Some(v) => lookup(members@, key@) == Some(*v),
            None => lookup(members@, key@) is None,
        },
{
    let mut i: usize = members.len();
    proof {
        assert(members@.take(members@.len() as int) =~= members@);
    }
    while i > 0
        invariant
            i <= members.len(),
            lookup(members@, key@) == lookup(members@.take(i as int), key@),
        decreases i,
    {
        proof {
            assert(members@.take(i as int).drop_last() =~= members@.take(i - 1));
        }
        if same(members[i - 1].key.as_str(), key) {
            return Some(&members[i - 1].value);
        }
        i -= 1;
    }
    None
}

} // verus!

//! What the size estimate of a JSON value promises about its text.
use vstd::prelude::*;

use crate::json::{
    commas, escaped, escaped_char, escapes, items_size, items_text, items_view, json_size,
    json_text, json_view, members_size, members_text, members_view, needs_escape, quoted, Json,
    JsonMember,
};
use crate::text::{joined, Text};
use crate::widths::{byte_len, lemma_joined_width, lemma_pushed_width};

verus! {

/// The only control characters of a text are line ends, carriage returns and
/// tabs.
pub open spec fn plain_text(s: Text) -> bool {
    forall|i: int| 0 <= i < s.len() ==> #[trigger] s[i] as u32 >= 32 || needs_escape(s[i])
}

/// A text is written as it is.
pub open spec fn bare_text(s: Text) -> bool {
    forall|i: int| 0 <= i < s.len() ==> #[trigger] s[i] as u32 >= 32 && !needs_escape(s[i])
}

/// The texts of a value are plain and its keys are written as they are.
pub open spec fn simple(j: Json) -> bool
    decreases j,
{
    match j {
        Json::Str(s) => plain_text(s@),
        Json::Array(items) => simple_items(items@),
        Json::Object(members) => simple_members(members@),
        _ => true,
    }
}

pub open spec fn simple_items(items: Seq<Json>) -> bool
    decreases items,
{
    items.len() == 0 || simple_items(items.drop_last()) && simple(items.last())
}

pub open spec fn simple_members(members: Seq<JsonMember>) -> bool
    decreases members,
{
    members.len() == 0 || simple_members(members.drop_last()) && bare_text(members.last().key@)
        && simple(members.last().value)
}

proof fn lemma_no_width()
    ensures
        byte_len(Seq::<char>::empty()) == 0,
{
}

proof fn lemma_one_width(c: char)
    requires
        c as u32 <= 0x7f,
    ensures
        byte_len(seq![c]) == 1,
{
    lemma_no_width();
    lemma_pushed_width(Seq::empty(), c);
    assert(Seq::empty().push(c) =~= seq![c]);
}

proof fn lemma_two_width(a: char, b: char)
    requires
        a as u32 <= 0x7f,
        b as u32 <= 0x7f,
    ensures
        byte_len(seq![a, b]) == 2,
{
    lemma_one_width(a);
    lemma_pushed_width(seq![a], b);
    assert(seq![a].push(b) =~= seq![a, b]);
}

/// A character is written in at least as many bytes as are counted for it.
proof fn lemma_escape_width(c: char)
    ensures
        byte_len(escaped_char(c)) >= byte_len(seq![c]) + if needs_escape(c) {
            1nat
        } else {
            0nat
        },
        c as u32 >= 32 || needs_escape(c) ==> byte_len(escaped_char(c)) == byte_len(seq![c])
            + if needs_escape(c) {
            1nat
        } else {
            0nat
        },
{
    let u = c as u32;
    if u <= 0x7f {
        lemma_one_width(c);
    }
    if c == '"' {
        lemma_two_width('\\', '"');
    } else if c == '\\' {
        lemma_two_width('\\', '\\');
    } else if u == 8 {
        lemma_two_width('\\', 'b');
    } else if u == 9 {
        lemma_two_width('\\', 't');
    } else if u == 10 {
        lemma_two_width('\\', 'n');
    } else if u == 12 {
        lemma_two_width('\\', 'f');
    } else if u == 13 {
        lemma_two_width('\\', 'r');
    } else if u < 32 {
        let all = escaped_char(c);
        lemma_two_width('\\', 'u');
        assert(all =~= seq!['\\', 'u'] + all.skip(2));
        lemma_joined_width(seq!['\\', 'u'], all.skip(2));
        assert(!needs_escape(c));
    } else {
        assert(!needs_escape(c));
        assert(escaped_char(c) == seq![c]);
    }
}

proof fn lemma_escaped_width(s: Text)
    ensures
        byte_len(escaped(s)) >= byte_len(s) + escapes(s),
        plain_text(s) ==> byte_len(escaped(s)) == byte_len(s) + escapes(s),
        bare_text(s) ==> byte_len(escaped(s)) == byte_len(s),
    decreases s.len(),
{
    lemma_no_width();
    if s.len() > 0 {
        let head = s.drop_last();
        let c = s.last();
        lemma_escaped_width(head);
        lemma_joined_width(escaped(head), escaped_char(c));
        lemma_escape_width(c);
        assert(s =~= head + seq![c]);
        lemma_joined_width(head, seq![c]);
        if plain_text(s) {
            assert(s[s.len() - 1] == c);
            assert forall|i: int| 0 <= i < head.len() implies #[trigger] head[i] as u32 >= 32
                || needs_escape(head[i]) by {
                assert(head[i] == s[i]);
            }
        }
        if bare_text(s) {
            assert(s[s.len() - 1] == c);
            assert forall|i: int| 0 <= i < head.len() implies #[trigger] head[i] as u32 >= 32
                && !needs_escape(head[i]) by {
                assert(head[i] == s[i]);
            }
        }
    } else {
        assert(s =~= Seq::empty());
    }
}

proof fn lemma_quoted_width(s: Text)
    ensures
        byte_len(quoted(s)) == byte_len(escaped(s)) + 2,
{
    lemma_one_width('"');
    lemma_joined_width(seq!['"'], escaped(s));
    lemma_joined_width(seq!['"'] + escaped(s), seq!['"']);
}

pub open spec fn total_width(parts: Seq<Text>) -> nat
    decreases parts.len(),
{
    if parts.len() == 0 {
        0
    } else {
        total_width(parts.drop_last()) + byte_len(parts.last())
    }
}

proof fn lemma_list_width(parts: Seq<Text>)
    ensures
        byte_len(joined(parts, ","@)) == total_width(parts) + commas(parts.len()),
    decreases parts.len(),
{
    lemma_no_width();
    reveal_strlit(",");
    assert(","@ =~= seq![',']);
    lemma_one_width(',');
    if parts.len() == 1 {
        assert(parts.drop_last() =~= Seq::empty());
        assert(total_width(Seq::<Text>::empty()) == 0);
    } else if parts.len() > 1 {
        let head = parts.drop_last();
        lemma_list_width(head);
        lemma_joined_width(joined(head, ","@), ","@);
        lemma_joined_width(joined(head, ","@) + ","@, parts.last());
    }
}

proof fn lemma_literal_widths()
    ensures
        byte_len("null"@) == 4,
        byte_len("true"@) == 4,
        byte_len("false"@) == 5,
        byte_len("["@) == 1,
        byte_len("]"@) == 1,
        byte_len("{"@) == 1,
        byte_len("}"@) == 1,
        byte_len(":"@) == 1,
{
    reveal_strlit("null");
    reveal_strlit("true");
    reveal_strlit("false");
    reveal_strlit("[");
    reveal_strlit("]");
    reveal_strlit("{");
    reveal_strlit("}");
    reveal_strlit(":");
    lemma_one_width('[');
    lemma_one_width(']');
    lemma_one_width('{');
    lemma_one_width('}');
    lemma_one_width(':');
    lemma_one_width('e');
    assert("["@ =~= seq!['[']);
    assert("]"@ =~= seq![']']);
    assert("{"@ =~= seq!['{']);
    assert("}"@ =~= seq!['}']);
    assert(":"@ =~= seq![':']);
    lemma_two_width('n', 'u');
    lemma_two_width('l', 'l');
    lemma_joined_width(seq!['n', 'u'], seq!['l', 'l']);
    assert("null"@ =~= seq!['n', 'u'] + seq!['l', 'l']);
    lemma_two_width('t', 'r');
    lemma_two_width('u', 'e');
    lemma_joined_width(seq!['t', 'r'], seq!['u', 'e']);
    assert("true"@ =~= seq!['t', 'r'] + seq!['u', 'e']);
    lemma_two_width('f', 'a');
    lemma_two_width('l', 's');
    lemma_joined_width(seq!['f', 'a'], seq!['l', 's']);
    lemma_joined_width(seq!['f', 'a'] + seq!['l', 's'], seq!['e']);
    assert("false"@ =~= seq!['f', 'a'] + seq!['l', 's'] + seq!['e']);
}

/// The estimate of a size is never more than the text of the value takes, and
/// it is exactly that if the texts of the value hold no control characters but
/// line ends, carriage returns and tabs, and its keys need no escapes.
pub proof fn sizes_are_not_overestimated(j: Json)
    ensures
        json_size(j) <= byte_len(json_text(j@)),
        simple(j) ==> json_size(j) == byte_len(json_text(j@)),
    decreases j,
{
    lemma_literal_widths();
    match j {
        Json::Str(s) => {
            lemma_quoted_width(s@);
            lemma_escaped_width(s@);
        },
        Json::Array(items) => {
            assert(decreases_to!(j => items));
            assert(decreases_to!(items => items@));
            lemma_items_size(items@);
            let parts = items_text(items_view(items@));
            lemma_list_width(parts);
            lemma_joined_width("["@, joined(parts, ","@));
            lemma_joined_width("["@ + joined(parts, ","@), "]"@);
        },
        Json::Object(members) => {
            assert(decreases_to!(j => members));
            assert(decreases_to!(members => members@));
            lemma_members_size(members@);
            let parts = members_text(members_view(members@));
            lemma_list_width(parts);
            lemma_joined_width("{"@, joined(parts, ","@));
            lemma_joined_width("{"@ + joined(parts, ","@), "}"@);
        },
        _ => {},
    }
}

proof fn lemma_items_size(items: Seq<Json>)
    ensures
        items_text(items_view(items)).len() == items.len(),
        items_size(items) <= total_width(items_text(items_view(items))),
        simple_items(items) ==> items_size(items) == total_width(items_text(items_view(items))),
    decreases items,
{
    if items.len() > 0 {
        let head = items.drop_last();
        assert(decreases_to!(items => items.drop_last()));
        assert(items.last() == items[items.len() - 1]);
        assert(decreases_to!(items => items[items.len() - 1]));
        lemma_items_size(head);
        sizes_are_not_overestimated(items.last());
        let seen = items_view(head);
        assert(items_view(items) == seen.push(json_view(items.last())));
        assert(seen.push(json_view(items.last())).drop_last() =~= seen);
        let parts = items_text(seen);
        assert(parts.push(json_text(json_view(items.last()))).drop_last() =~= parts);
    }
}

proof fn lemma_members_size(members: Seq<JsonMember>)
    ensures
        members_text(members_view(members)).len() == members.len(),
        members_size(members) <= total_width(members_text(members_view(members))),
        simple_members(members) ==> members_size(members) == total_width(
            members_text(members_view(members)),
        ),
    decreases members,
{
    if members.len() > 0 {
        let head = members.drop_last();
        let m = members.last();
        assert(decreases_to!(members => members.drop_last()));
        assert(m == members[members.len() - 1]);
        assert(decreases_to!(members => members[members.len() - 1]));
        assert(decreases_to!(members[members.len() - 1] => members[members.len() - 1].value));
        lemma_members_size(head);
        sizes_are_not_overestimated(m.value);
        lemma_literal_widths();
        lemma_quoted_width(m.key@);
        lemma_escaped_width(m.key@);
        let text = json_text(json_view(m.value));
        lemma_joined_width(quoted(m.key@), ":"@);
        lemma_joined_width(quoted(m.key@) + ":"@, text);
        let seen = members_view(head);
        assert(members_view(members) == seen.push((m.key@, json_view(m.value))));
        assert(seen.push((m.key@, json_view(m.value))).drop_last() =~= seen);
        let parts = members_text(seen);
        assert(parts.push(quoted(m.key@) + ":"@ + text).drop_last() =~= parts);
    }
}

} // verus!

//! What holds of every text that is split, joined or numbered.
use vstd::prelude::*;

use crate::text::{
    ascii_lower, contains_text, decimal, digit, in_class, joined, lemma_split_pieces, occurs_at,
    split_text, text_lines, trimmed_both, trimmed_end, trimmed_start, without_cr, CharClass, Text,
};

verus! {

/// A number is told by its digits: different numbers are written differently.
pub proof fn decimals_tell_numbers_apart(m: nat, n: nat)
    requires
        decimal(m) == decimal(n),
    ensures
        m == n,
    decreases m,
{
    assert(digit(m) as int == 48 + m % 10);
    assert(digit(n) as int == 48 + n % 10);
    if m < 10 && n < 10 {
        assert(decimal(m)[0] == digit(m));
        assert(decimal(n)[0] == digit(n));
        assert(m == n);
    } else if m >= 10 && n >= 10 {
        assert(decimal(m / 10) =~= decimal(m).drop_last());
        assert(decimal(n / 10) =~= decimal(n).drop_last());
        decimals_tell_numbers_apart(m / 10, n / 10);
        assert(decimal(m).last() == digit(m));
        assert(decimal(n).last() == digit(n));
        assert(m % 10 == n % 10);
        assert(m == n);
    } else {
        lemma_decimal_len(m / 10);
        lemma_decimal_len(n / 10);
        assert(decimal(m).len() == decimal(n).len());
        if m < 10 {
            assert(decimal(m).len() == 1);
            assert(decimal(n).len() == decimal(n / 10).len() + 1);
        } else {
            assert(decimal(n).len() == 1);
            assert(decimal(m).len() == decimal(m / 10).len() + 1);
        }
    }
}

/// A number is written from the left: a digit behind it makes it ten times as
/// much and the digit. A number below ten is a digit, counted from zero.
pub proof fn decimals_are_written_from_the_left(n: nat, d: nat)
    requires
        d < 10,
    ensures
        n > 0 ==> decimal(10 * n + d) == decimal(n) + decimal(d),
        decimal(d).len() == 1,
        decimal(d)[0] as int == '0' as int + d,
{
    assert(digit(d) as int == 48 + d);
    if n > 0 {
        let whole = 10 * n + d;
        assert(whole / 10 == n && whole % 10 == d);
        assert(decimal(whole) =~= decimal(n) + decimal(d));
    }
}

proof fn lemma_decimal_len(n: nat)
    ensures
        decimal(n).len() >= 1,
    decreases n,
{
    if n >= 10 {
        lemma_decimal_len(n / 10);
    }
}

/// A text holds what it was put together from.
pub proof fn lemma_held(a: Text, b: Text, c: Text)
    ensures
        contains_text(a + b + c, b),
{
    let whole = a + b + c;
    assert(whole.subrange(a.len() as int, a.len() as int + b.len()) =~= b);
    assert(occurs_at(whole, b, a.len() as int));
}

/// A text without the separator is its only piece.
pub proof fn lemma_unsplit(s: Text, c: char)
    requires
        !s.contains(c),
    ensures
        split_text(s, c) == seq![s],
    decreases s.len(),
{
    if s.len() > 0 {
        let rest = s.drop_last();
        assert forall|i: int| 0 <= i < rest.len() implies rest[i] != c by {
            assert(s[i] != c) by {
                assert(s.contains(s[i]));
            }
        }
        lemma_unsplit(rest, c);
        assert(s.contains(s[s.len() - 1]));
        assert(split_text(s, c) =~= seq![rest.push(s.last())]);
        assert(rest.push(s.last()) =~= s);
    } else {
        assert(s =~= Seq::<char>::empty());
    }
}

/// A text that holds the separator has at least two pieces.
pub proof fn lemma_split_at_least_two(head: Text, c: char, rest: Text)
    ensures
        split_text(head.push(c) + rest, c).len() >= 2,
    decreases rest.len(),
{
    let whole = head.push(c) + rest;
    if rest.len() == 0 {
        assert(whole =~= head.push(c));
        assert(whole.drop_last() =~= head);
        lemma_split_pieces(head, c);
    } else {
        assert(whole.drop_last() =~= head.push(c) + rest.drop_last());
        lemma_split_at_least_two(head, c, rest.drop_last());
    }
}

/// A separator and a text without one make one piece more.
proof fn lemma_split_behind(a: Text, c: char, b: Text)
    requires
        !b.contains(c),
    ensures
        split_text(a.push(c) + b, c) == split_text(a, c).push(b),
    decreases b.len(),
{
    let whole = a.push(c) + b;
    if b.len() == 0 {
        assert(whole =~= a.push(c));
        assert(whole.drop_last() =~= a);
        assert(b =~= Seq::<char>::empty());
    } else {
        let rest = b.drop_last();
        assert forall|i: int| 0 <= i < rest.len() implies rest[i] != c by {
            assert(b.contains(b[i]));
        }
        lemma_split_behind(a, c, rest);
        assert(whole.drop_last() =~= a.push(c) + rest);
        assert(b.contains(b[b.len() - 1]));
        assert(whole.last() == b.last());
        let before = split_text(a.push(c) + rest, c);
        assert(before.drop_last() =~= split_text(a, c));
        assert(rest.push(b.last()) =~= b);
    }
}

/// Splitting gives back what was joined, as long as no part holds the separator.
pub proof fn joined_then_split(parts: Seq<Text>, c: char)
    requires
        parts.len() > 0,
        forall|i: int| 0 <= i < parts.len() ==> !(#[trigger] parts[i]).contains(c),
    ensures
        split_text(joined(parts, seq![c]), c) == parts,
    decreases parts.len(),
{
    if parts.len() == 1 {
        lemma_unsplit(parts[0], c);
        assert(seq![parts[0]] =~= parts);
    } else {
        let rest = parts.drop_last();
        let last = parts[parts.len() - 1];
        assert forall|i: int| 0 <= i < rest.len() implies !(#[trigger] rest[i]).contains(c) by {
            assert(rest[i] == parts[i]);
        }
        joined_then_split(rest, c);
        lemma_split_behind(joined(rest, seq![c]), c, last);
        assert(joined(rest, seq![c]).push(c) + last =~= joined(rest, seq![c]) + seq![c] + last);
        assert(rest.push(last) =~= parts);
    }
}

/// The lines of a text are what it was written from, line by line: lines without
/// a line break of which the last is not empty and none ends with a carriage
/// return.
pub proof fn lines_are_what_was_written(list: Seq<Text>)
    requires
        list.len() > 0,
        list.last().len() > 0,
        forall|i: int|
            0 <= i < list.len() ==> !(#[trigger] list[i]).contains('\n') && (list[i].len() > 0
                ==> list[i].last() != '\r'),
    ensures
        text_lines(joined(list, "\n"@)) == list,
        text_lines(joined(list, "\n"@) + "\n"@) == list,
{
    reveal_strlit("\n");
    let sep = seq!['\n'];
    assert("\n"@ =~= sep);
    let text = joined(list, sep);
    joined_then_split(list, '\n');
    let kept = |p: Text| without_cr(p);
    assert(list.drop_last().map_values(kept) =~= list.drop_last()) by {
        assert forall|i: int| 0 <= i < list.len() - 1 implies without_cr(list[i]) == list[i] by {
        }
    }
    assert(list.drop_last().push(list.last()) =~= list);
    let ended = text + sep;
    assert(ended.drop_last() =~= text);
    assert(ended.last() == '\n');
    assert(split_text(ended, '\n') == list.push(Seq::empty()));
    assert(list.push(Seq::empty()).drop_last() =~= list);
    assert(list.map_values(kept) =~= list) by {
        assert forall|i: int| 0 <= i < list.len() implies without_cr(list[i]) == list[i] by {
        }
    }
}

/// No line holds a line break.
pub proof fn lines_hold_no_breaks(s: Text)
    ensures
        forall|i: int|
            0 <= i < text_lines(s).len() ==> !(#[trigger] text_lines(s)[i]).contains('\n'),
{
    lemma_split_pieces(s, '\n');
    let pieces = split_text(s, '\n');
    assert forall|i: int| 0 <= i < text_lines(s).len() implies !(#[trigger] text_lines(
        s,
    )[i]).contains('\n') by {
        let line = text_lines(s)[i];
        assert(!pieces[i].contains('\n'));
        assert forall|k: int| 0 <= k < line.len() implies line[k] != '\n' by {
            assert(line[k] == pieces[i][k]);
            assert(pieces[i].contains(pieces[i][k]));
        }
    }
}

/// A joined text holds each of its parts.
pub proof fn joined_texts_hold_their_parts(parts: Seq<Text>, sep: Text, k: int)
    requires
        0 <= k < parts.len(),
    ensures
        contains_text(joined(parts, sep), parts[k]),
    decreases parts.len(),
{
    let none = Seq::<char>::empty();
    let whole = joined(parts, sep);
    if parts.len() == 1 {
        assert(none + whole + none =~= whole);
        lemma_held(none, whole, none);
    } else if k == parts.len() - 1 {
        let head = joined(parts.drop_last(), sep) + sep;
        assert(head + parts[k] + none =~= whole);
        lemma_held(head, parts[k], none);
    } else {
        let rest = parts.drop_last();
        joined_texts_hold_their_parts(rest, sep, k);
        assert(rest[k] == parts[k]);
        let i = choose|i: int| occurs_at(joined(rest, sep), parts[k], i);
        assert(whole.subrange(i, i + parts[k].len()) =~= joined(rest, sep).subrange(
            i,
            i + parts[k].len(),
        ));
        assert(occurs_at(whole, parts[k], i));
    }
}

/// A text that another holds is held by whatever holds the other.
pub proof fn lemma_held_within(a: Text, b: Text, c: Text)
    requires
        contains_text(a, b),
        contains_text(b, c),
    ensures
        contains_text(a, c),
{
    let i = choose|i: int| occurs_at(a, b, i);
    let k = choose|k: int| occurs_at(b, c, k);
    assert(a.subrange(i + k, i + k + c.len()) =~= a.subrange(i, i + b.len()).subrange(
        k,
        k + c.len(),
    ));
    assert(occurs_at(a, c, i + k));
}

/// Only characters of the class are trimmed, and only from the edges: what is
/// left stands in the text, and none of the class is at its ends.
pub proof fn trimming_takes_only_the_edges(s: Text, class: CharClass)
    ensures
        ({
            let kept = trimmed_both(s, class);
            &&& exists|a: int, b: int|
                #![trigger s.subrange(a, b)]
                {
                    &&& 0 <= a <= b <= s.len()
                    &&& kept == s.subrange(a, b)
                    &&& forall|i: int| 0 <= i < a ==> in_class(#[trigger] s[i], class)
                    &&& forall|i: int| b <= i < s.len() ==> in_class(#[trigger] s[i], class)
                }
            &&& kept.len() > 0 ==> !in_class(kept[0], class) && !in_class(kept.last(), class)
        }),
{
    let head = trimmed_start(s, class);
    let a = lemma_trimmed_start(s, class);
    let n = lemma_trimmed_end(head, class);
    let kept = trimmed_both(s, class);
    assert(kept =~= s.subrange(a, a + n));
    assert forall|i: int| a + n <= i < s.len() implies in_class(#[trigger] s[i], class) by {
        assert(head[i - a] == s[i]);
    }
    if kept.len() > 0 {
        assert(kept[0] == head[0]);
    }
    assert(s.subrange(a, a + n) == kept);
}

proof fn lemma_trimmed_start(s: Text, class: CharClass) -> (a: int)
    ensures
        0 <= a <= s.len(),
        trimmed_start(s, class) == s.skip(a),
        forall|i: int| 0 <= i < a ==> in_class(#[trigger] s[i], class),
        a < s.len() ==> !in_class(s[a], class),
    decreases s.len(),
{
    if s.len() > 0 && in_class(s[0], class) {
        let k = lemma_trimmed_start(s.drop_first(), class);
        assert(s.drop_first().skip(k) =~= s.skip(k + 1));
        assert forall|i: int| 0 <= i < k + 1 implies in_class(#[trigger] s[i], class) by {
            if i > 0 {
                assert(s.drop_first()[i - 1] == s[i]);
            }
        }
        k + 1
    } else {
        assert(s.skip(0) =~= s);
        0
    }
}

proof fn lemma_trimmed_end(s: Text, class: CharClass) -> (n: int)
    ensures
        0 <= n <= s.len(),
        trimmed_end(s, class) == s.take(n),
        forall|i: int| n <= i < s.len() ==> in_class(#[trigger] s[i], class),
        n > 0 ==> !in_class(s[n - 1], class),
    decreases s.len(),
{
    if s.len() > 0 && in_class(s.last(), class) {
        let k = lemma_trimmed_end(s.drop_last(), class);
        assert(s.drop_last().take(k) =~= s.take(k));
        assert forall|i: int| k <= i < s.len() implies in_class(#[trigger] s[i], class) by {
            if i < s.len() - 1 {
                assert(s.drop_last()[i] == s[i]);
            }
        }
        k
    } else {
        assert(s.take(s.len() as int) =~= s);
        s.len() as int
    }
}

/// What is trimmed and what counts as white space or as a line break.
pub proof fn blanks_are_trimmed(c: char)
    ensures
        in_class(' ', CharClass::Space) && in_class('\n', CharClass::Space) && in_class(
            '\t',
            CharClass::Space,
        ) && in_class('\r', CharClass::Space),
        in_class(c, CharClass::LineBreak) <==> c == '\n' || c == '\r',
        in_class(c, CharClass::Only('/')) <==> c == '/',
        '!' <= c && c <= '~' ==> !in_class(c, CharClass::Space),
{
}

/// Lower case changes capital letters only, each to its small letter, and
/// nothing that is in lower case.
pub proof fn lower_case_changes_capitals_only(s: Text)
    ensures
        ascii_lower(s).len() == s.len(),
        forall|i: int|
            0 <= i < s.len() ==> (if 'A' <= s[i] && s[i] <= 'Z' {
                (#[trigger] ascii_lower(s)[i]) as int == s[i] as int + ('a' as int - 'A' as int)
            } else {
                ascii_lower(s)[i] == s[i]
            }),
        ascii_lower(ascii_lower(s)) == ascii_lower(s),
{
    assert(ascii_lower(ascii_lower(s)) =~= ascii_lower(s));
}

} // verus!

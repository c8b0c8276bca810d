//! Versions of skills: where they are written and which is newer.
use vstd::prelude::*;

use crate::text::{
    chars_of, find_from, lines, occurs_at, split, split_text, starts_with, text_lines, texts,
    trim, trim_class_start, trimmed, trimmed_start, CharClass, Text,
};

verus! {

// ---------------------------------------------------------------------------
// Numbers

pub open spec fn is_digit(c: char) -> bool {
    '0' <= c && c <= '9'
}

pub open spec fn digit_value(c: char) -> nat {
    (c as u32 - '0' as u32) as nat
}

/// The text is made of digits alone.
pub open spec fn all_digits(s: Text) -> bool {
    forall|i: int| 0 <= i < s.len() ==> is_digit(#[trigger] s[i])
}

/// The value of a text of digits.
pub open spec fn digits_value(s: Text) -> nat
    decreases s.len(),
{
    if s.len() == 0 {
        0
    } else {
        digits_value(s.drop_last()) * 10 + digit_value(s.last())
    }
}

/// A text without one plus sign in front.
pub open spec fn unsigned(s: Text) -> Text {
    if s.len() > 0 && s[0] == '+' {
        s.drop_first()
    } else {
        s
    }
}

/// The number that a text stands for: digits, perhaps after a plus sign, with
/// a value that fits.
pub open spec fn number(s: Text) -> Option<u32> {
    let digits = unsigned(s);
    if digits.len() > 0 && all_digits(digits) && digits_value(digits) <= u32::MAX {
        Some(digits_value(digits) as u32)
    } else {
        None
    }
}

/// The value only grows with further digits.
proof fn lemma_digits_grow(s: Text, n: int)
    requires
        0 <= n <= s.len(),
    ensures
        digits_value(s.take(n)) <= digits_value(s),
    decreases s.len(),
{
    if n == s.len() {
        assert(s.take(n) =~= s);
    } else {
        lemma_digits_grow(s.drop_last(), n);
        assert(s.drop_last().take(n) =~= s.take(n));
    }
}

fn parse_number(s: &str) -> (r: Option<u32>)
    ensures
        r == number(s@),
{
    let cs = chars_of(s);
    let from: usize = if cs.len() > 0 && cs[0] == '+' {
        1
    } else {
        0
    };
    let ghost digits = unsigned(s@);
    proof {
        assert(digits =~= s@.skip(from as int));
    }
    if from == cs.len() {
        return None;
    }
    let mut value: u64 = 0;
    let mut i: usize = from;
    proof {
        assert(digits.take(0) =~= Seq::<char>::empty());
    }
    while i < cs.len()
        invariant
            from <= i <= cs.len(),
            cs@ == s@,
            digits == s@.skip(from as int),
            digits == unsigned(s@),
            forall|j: int| 0 <= j < i - from ==> is_digit(#[trigger] digits[j]),
            value == digits_value(digits.take(i - from)),
            value <= u32::MAX,
        decreases cs.len() - i,
    {
        let c: char = cs[i];
        let ghost n = i - from;
        proof {
            assert(digits[n] == c);
            assert(digits.take(n + 1).drop_last() =~= digits.take(n));
            assert(digits.take(n + 1).last() == c);
        }
        if !('0' <= c && c <= '9') {
            proof {
                assert(!is_digit(digits[n]));
            }
            return None;
        }
        value = value * 10 + (c as u32 - '0' as u32) as u64;
        if value > u32::MAX as u64 {
            proof {
                lemma_digits_grow(digits, n + 1);
            }
            return None;
        }
        i += 1;
    }
    proof {
        assert(digits.take(digits.len() as int) =~= digits);
    }
    Some(value as u32)
}

// ---------------------------------------------------------------------------
// Comparing versions

/// The numbers among some pieces.
pub open spec fn numbers(pieces: Seq<Text>) -> Seq<u32>
    decreases pieces.len(),
{
    if pieces.len() == 0 {
        Seq::empty()
    } else {
        match number(pieces.last()) {
            Some(n) => numbers(pieces.drop_last()).push(n),
            None => numbers(pieces.drop_last()),
        }
    }
}

/// The numbers of a version. What is no number does not count.
pub open spec fn version_numbers(version: Text) -> Seq<u32> {
    numbers(split_text(version, '.'))
}

/// The number at a place of a version; 0 beyond its end.
pub open spec fn number_at(version: Seq<u32>, i: int) -> u32 {
    if 0 <= i < version.len() {
        version[i]
    } else {
        0
    }
}

/// Up to a place two versions agree, and there the first is greater.
pub open spec fn ahead_at(a: Seq<u32>, b: Seq<u32>, i: int) -> bool {
    &&& 0 <= i
    &&& number_at(a, i) > number_at(b, i)
    &&& forall|j: int| 0 <= j < i ==> #[trigger] number_at(a, j) == number_at(b, j)
}

/// A version is newer than another: it is greater at the first place where
/// they differ.
pub open spec fn newer(a: Text, b: Text) -> bool {
    exists|i: int| #[trigger] ahead_at(version_numbers(a), version_numbers(b), i)
}

/// No version is newer than itself.
pub proof fn newer_is_irreflexive(a: Text)
    ensures
        !newer(a, a),
{
}

/// Of two versions at most one is newer.
pub proof fn newer_is_asymmetric(a: Text, b: Text)
    requires
        newer(a, b),
    ensures
        !newer(b, a),
{
    let x = version_numbers(a);
    let y = version_numbers(b);
    let i = choose|i: int| #[trigger] ahead_at(x, y, i);
    if newer(b, a) {
        let k = choose|k: int| #[trigger] ahead_at(y, x, k);
        if i < k {
            assert(number_at(y, i) == number_at(x, i));
        } else if k < i {
            assert(number_at(x, k) == number_at(y, k));
        }
    }
}

/// What is newer than a newer version is newer.
pub proof fn newer_is_transitive(a: Text, b: Text, c: Text)
    requires
        newer(a, b),
        newer(b, c),
    ensures
        newer(a, c),
{
    let x = version_numbers(a);
    let y = version_numbers(b);
    let z = version_numbers(c);
    let i = choose|i: int| #[trigger] ahead_at(x, y, i);
    let k = choose|k: int| #[trigger] ahead_at(y, z, k);
    let m = if i < k {
        i
    } else {
        k
    };
    assert forall|j: int| 0 <= j < m implies #[trigger] number_at(x, j) == number_at(z, j) by {
        assert(number_at(x, j) == number_at(y, j));
        assert(number_at(y, j) == number_at(z, j));
    }
    if i < k {
        assert(number_at(y, i) == number_at(z, i));
    } else if k < i {
        assert(number_at(x, k) == number_at(y, k));
    }
    assert(ahead_at(x, z, m));
}

fn parse_version(version: &str) -> (out: Vec<u32>)
    ensures
        out@ == version_numbers(version@),
{
    let pieces = split(version, '.');
    let ghost all = texts(pieces@);
    let mut out: Vec<u32> = Vec::new();
    let mut i: usize = 0;
    proof {
        assert(all.take(0) =~= Seq::empty());
    }
    while i < pieces.len()
        invariant
            i <= pieces.len(),
            all == texts(pieces@),
            out@ == numbers(all.take(i as int)),
        decreases pieces.len() - i,
    {
        proof {
            assert(all.take(i + 1).drop_last() =~= all.take(i as int));
            assert(all.take(i + 1).last() == pieces@[i as int]@);
        }
        if let Some(n) = parse_number(pieces[i].as_str()) {
            out.push(n);
        }
        i += 1;
    }
    proof {
        assert(all.take(all.len() as int) =~= all);
    }
    out
}

/// Whether a version is newer than another.
pub fn version_newer(a: &str, b: &str) -> (r: bool)
    ensures
        r == newer(a@, b@),
{
    let x = parse_version(a);
    let y = parse_version(b);
    let n: usize = if x.len() > y.len() {
        x.len()
    } else {
        y.len()
    };
    let mut i: usize = 0;
    while i < n
        invariant
            i <= n,
            x@ == version_numbers(a@),
            y@ == version_numbers(b@),
            n >= x@.len(),
            n >= y@.len(),
            forall|j: int| 0 <= j < i ==> #[trigger] number_at(x@, j) == number_at(y@, j),
        decreases n - i,
    {
        let p: u32 = if i < x.len() {
            x[i]
        } else {
            0
        };
        let q: u32 = if i < y.len() {
            y[i]
        } else {
            0
        };
        if p != q {
            proof {
                assert(p == number_at(x@, i as int) && q == number_at(y@, i as int));
                if p > q {
                    assert(ahead_at(x@, y@, i as int));
                } else if newer(a@, b@) {
                    let k = choose|k: int| #[trigger] ahead_at(x@, y@, k);
                    if k < i {
                        assert(number_at(x@, k) == number_at(y@, k));
                    } else if i < k {
                        assert(number_at(x@, i as int) == number_at(y@, i as int));
                    }
                }
            }
            return p > q;
        }
        i += 1;
    }
    proof {
        if newer(a@, b@) {
            let k = choose|k: int| #[trigger] ahead_at(x@, y@, k);
            if k < n {
                assert(number_at(x@, k) == number_at(y@, k));
            }
        }
    }
    false
}

// ---------------------------------------------------------------------------
// Front matter

/// The first place at which a text occurs in another.
pub open spec fn first_at(hay: Text, needle: Text, i: int) -> bool {
    &&& occurs_at(hay, needle, i)
    &&& forall|j: int| 0 <= j < i ==> !occurs_at(hay, needle, j)
}

/// The value of the first line with a prefix.
pub open spec fn first_value(list: Seq<Text>, prefix: Text) -> Option<Text>
    decreases list.len(),
{
    if list.len() == 0 {
        None
    } else if prefix.is_prefix_of(trimmed(list[0])) {
        Some(trimmed(trimmed(list[0]).skip(prefix.len() as int)))
    } else {
        first_value(list.drop_first(), prefix)
    }
}

/// What stands after the opening dashes of front matter.
pub open spec fn after_dashes(content: Text) -> Text {
    trimmed_start(trimmed_start(content, CharClass::Space).skip(3), CharClass::LineBreak)
}

/// `end` is where the front matter of a text ends.
pub open spec fn matter_ends(content: Text, end: int) -> bool {
    &&& "---"@.is_prefix_of(trimmed_start(content, CharClass::Space))
    &&& first_at(after_dashes(content), "\n---"@, end)
}

/// The value of a key in the front matter of a text.
pub open spec fn matter_value(content: Text, key: Text) -> Option<Text> {
    if exists|end: int| matter_ends(content, end) {
        let end = choose|end: int| matter_ends(content, end);
        first_value(text_lines(after_dashes(content).take(end)), key + ":"@)
    } else {
        None
    }
}

/// The end of front matter is unambiguous.
proof fn lemma_one_end(content: Text, a: int, b: int)
    requires
        matter_ends(content, a),
        matter_ends(content, b),
    ensures
        a == b,
{
}

/// The value of a key in the front matter of a text: between dashes at its
/// beginning, on a line of its own.
pub fn extract_fm_value(content: &str, key: &str) -> (r: Option<String>)
    ensures
        crate::text::opt_text(r) == matter_value(content@, key@),
{
    let head = trim_class_start(content, CharClass::Space);
    if !starts_with(head.as_str(), "---") {
        proof {
            assert(forall|end: int| !matter_ends(content@, end));
        }
        return None;
    }
    proof {
        reveal_strlit("---");
        assert("---"@.len() == 3);
        assert("---"@.len() <= head@.len());
    }
    let n = head.as_str().unicode_len();
    let rest = head.as_str().substring_char(3, n);
    proof {
        assert(head@.subrange(3, n as int) =~= head@.skip(3));
    }
    let body = trim_class_start(rest, CharClass::LineBreak);
    let cs = chars_of(body.as_str());
    let mark = chars_of("\n---");
    let end: usize = match find_from(cs.as_slice(), mark.as_slice(), 0) {
        Some(end) => end,
        None => {
            proof {
                assert forall|end: int| !matter_ends(content@, end) by {
                    if matter_ends(content@, end) {
                        assert(occurs_at(body@, "\n---"@, end));
                    }
                }
            }
            return None;
        },
    };
    proof {
        assert(matter_ends(content@, end as int));
        let chosen = choose|e: int| matter_ends(content@, e);
        lemma_one_end(content@, end as int, chosen);
    }
    let matter = body.as_str().substring_char(0, end);
    proof {
        assert(body@.subrange(0, end as int) =~= body@.take(end as int));
    }
    let list = lines(matter);
    let mut prefix = key.to_owned();
    prefix.append(":");
    value_with_prefix(list.as_slice(), prefix.as_str())
}

fn value_with_prefix(list: &[String], prefix: &str) -> (r: Option<String>)
    ensures
        crate::text::opt_text(r) == first_value(texts(list@), prefix@),
{
    let ghost all = texts(list@);
    let mut i: usize = 0;
    proof {
        assert(all.skip(0) =~= all);
    }
    while i < list.len()
        invariant
            i <= list.len(),
            all == texts(list@),
            first_value(all, prefix@) == first_value(all.skip(i as int), prefix@),
        decreases list.len() - i,
    {
        proof {
            assert(all.skip(i as int)[0] == list@[i as int]@);
            assert(all.skip(i as int).drop_first() =~= all.skip(i + 1));
        }
        let line = trim(list[i].as_str());
        if starts_with(line.as_str(), prefix) {
            let n = line.as_str().unicode_len();
            let m = prefix.unicode_len();
            let value = line.as_str().substring_char(m, n);
            proof {
                assert(line@.subrange(m as int, n as int) =~= line@.skip(m as int));
            }
            return Some(trim(value));
        }
        i += 1;
    }
    None
}

/// The version of a skill, from the text of its description; none if there is
/// no such text.
pub fn skill_version(skill_md: &Option<String>) -> (r: Option<String>)
    ensures
        crate::text::opt_text(r) == version_in(crate::text::opt_text(*skill_md)),
{
    match skill_md {
        Some(content) => extract_fm_value(content.as_str(), "version"),
        None => None,
    }
}

/// The version of a skill, from the text of its description.
pub open spec fn version_in(skill_md: Option<Text>) -> Option<Text> {
    match skill_md {
        Some(content) => matter_value(content, "version"@),
        None => None,
    }
}

} // verus!

//! Text as a sequence of characters: searching, splitting, joining and
//! rendering, with every function proved against its meaning on `Seq<char>`.
use vstd::prelude::*;
use vstd::string::*;

verus! {

/// The content of a string.
pub type Text = Seq<char>;

/// `String::push` appends one character.
pub assume_specification[ String::push ](s: &mut String, c: char)
    ensures
        final(s)@ == old(s)@.push(c),
;

/// `==` on `str` compares the characters.
pub assume_specification[ <str as PartialEq>::eq ](s: &str, other: &str) -> (res: bool)
    ensures
        res == (s@ == other@),
;

/// The contents of a list of strings.
pub open spec fn texts(list: Seq<String>) -> Seq<Text> {
    Seq::new(list.len(), |i: int| list[i]@)
}

pub fn same(a: &str, b: &str) -> (r: bool)
    ensures
        r == (a@ == b@),
{
    *a == *b
}

/// The characters of a string, as a vector.
pub fn chars_of(s: &str) -> (out: Vec<char>)
    ensures
        out@ == s@,
{
    let mut out: Vec<char> = Vec::new();
    for c in it: s.chars()
        invariant
            it.seq() == s@,
            out@ == s@.take(it.index()),
    {
        out.push(c);
        proof {
            assert(s@.take(it.index() + 1) == s@.take(it.index()).push(s@[it.index()]));
        }
    }
    proof {
        assert(s@.take(s@.len() as int) == s@);
    }
    out
}

/// The string made of some characters.
pub fn from_chars(cs: &[char]) -> (out: String)
    ensures
        out@ == cs@,
{
    let mut out = String::new();
    let mut i: usize = 0;
    while i < cs.len()
        invariant
            i <= cs.len(),
            out@ == cs@.take(i as int),
        decreases cs.len() - i,
    {
        out.push(cs[i]);
        proof {
            assert(cs@.take(i + 1) == cs@.take(i as int).push(cs@[i as int]));
        }
        i += 1;
    }
    proof {
        assert(cs@.take(cs@.len() as int) == cs@);
    }
    out
}


/// A copy of a list of strings, element for element.
pub fn copy_list(list: &[String]) -> (out: Vec<String>)
    ensures
        texts(out@) == texts(list@),
{
    let mut out: Vec<String> = Vec::new();
    let mut i: usize = 0;
    while i < list.len()
        invariant
            i <= list.len(),
            texts(out@) == texts(list@).take(i as int),
        decreases list.len() - i,
    {
        proof {
            lemma_texts_push(out@, list@[i as int]);
            assert(texts(list@).take(i + 1) =~= texts(list@).take(i as int).push(list@[i as int]@));
        }
        out.push(list[i].clone());
        i += 1;
    }
    proof {
        assert(texts(list@).take(list@.len() as int) =~= texts(list@));
    }
    out
}

/// Appending a string appends its content.
pub proof fn lemma_texts_push(list: Seq<String>, s: String)
    ensures
        texts(list.push(s)) == texts(list).push(s@),
{
    assert(texts(list.push(s)) =~= texts(list).push(s@));
}

/// A text in two parts begins with the first and ends with the second.
pub proof fn lemma_two_parts(a: Text, b: Text)
    ensures
        a.is_prefix_of(a + b),
        b.is_suffix_of(a + b),
{
    assert((a + b).subrange(0, a.len() as int) =~= a);
    assert((a + b).subrange(a.len() as int, (a + b).len() as int) =~= b);
}

/// A text in three parts begins with the first, ends with the last, and holds
/// the second between them.
pub proof fn lemma_three_parts(a: Text, b: Text, c: Text)
    ensures
        a.is_prefix_of(a + b + c),
        c.is_suffix_of(a + b + c),
        (a + b + c).len() == a.len() + b.len() + c.len(),
        (a + b + c).subrange(a.len() as int, (a.len() + b.len()) as int) == b,
{
    let whole = a + b + c;
    assert(whole.subrange(0, a.len() as int) =~= a);
    assert(whole.subrange((a.len() + b.len()) as int, whole.len() as int) =~= c);
    assert(whole.subrange(a.len() as int, (a.len() + b.len()) as int) =~= b);
}

/// What a filtered list holds.
pub proof fn lemma_filter_holds<A>(list: Seq<A>, pred: spec_fn(A) -> bool, item: A)
    ensures
        list.filter(pred).contains(item) <==> list.contains(item) && pred(item),
{
    let kept = list.filter(pred);
    if kept.contains(item) {
        list.lemma_filter_contains_rev(pred, item);
        list.lemma_filter_pred(pred, kept.index_of(item));
    }
    if list.contains(item) && pred(item) {
        list.lemma_filter_contains(pred, list.index_of(item));
    }
}

/// Filters that agree on the items of a list keep the same of them.
pub proof fn lemma_filter_same<A>(list: Seq<A>, p: spec_fn(A) -> bool, q: spec_fn(A) -> bool)
    requires
        forall|i: int| 0 <= i < list.len() ==> p(#[trigger] list[i]) == q(list[i]),
    ensures
        list.filter(p) == list.filter(q),
    decreases list.len(),
{
    reveal(Seq::filter);
    if list.len() > 0 {
        let rest = list.drop_last();
        assert forall|i: int| 0 <= i < rest.len() implies p(#[trigger] rest[i]) == q(rest[i]) by {
            assert(rest[i] == list[i]);
        }
        lemma_filter_same(rest, p, q);
    }
}

/// A copy of an optional string.
pub fn copy_opt(value: &Option<String>) -> (out: Option<String>)
    ensures
        opt_text(out) == opt_text(*value),
{
    match value {
        Some(s) => Some(s.clone()),
        None => None,
    }
}

/// The content of an optional string.
pub open spec fn opt_text(value: Option<String>) -> Option<Text> {
    match value {
        Some(s) => Some(s@),
        None => None,
    }
}

/// A text that may be missing, or another in its place.
pub open spec fn or_text(value: Option<Text>, other: Text) -> Text {
    match value {
        Some(text) => text,
        None => other,
    }
}

// ---------------------------------------------------------------------------
// Searching
// ---------------------------------------------------------------------------

/// `needle` stands in `hay` at position `i`.
pub open spec fn occurs_at(hay: Text, needle: Text, i: int) -> bool {
    &&& 0 <= i
    &&& i + needle.len() <= hay.len()
    &&& hay.subrange(i, i + needle.len()) == needle
}

/// `needle` stands somewhere in `hay`.
pub open spec fn contains_text(hay: Text, needle: Text) -> bool {
    exists|i: int| occurs_at(hay, needle, i)
}

pub fn matches_at(hay: &[char], needle: &[char], i: usize) -> (r: bool)
    ensures
        r == occurs_at(hay@, needle@, i as int),
{
    if needle.len() > hay.len() || i > hay.len() - needle.len() {
        return false;
    }
    let mut k: usize = 0;
    while k < needle.len()
        invariant
            k <= needle.len(),
            i + needle.len() <= hay.len(),
            forall|j: int| 0 <= j < k ==> hay@[i + j] == needle@[j],
        decreases needle.len() - k,
    {
        if hay[i + k] != needle[k] {
            proof {
                assert(hay@.subrange(i as int, i + needle@.len())[k as int] != needle@[k as int]);
            }
            return false;
        }
        k += 1;
    }
    proof {
        assert(hay@.subrange(i as int, i + needle@.len()) =~= needle@);
    }
    true
}

/// The first position at or after `from` where `needle` stands.
pub fn find_from(hay: &[char], needle: &[char], from: usize) -> (r: Option<usize>)
    ensures
        match r {
            Some(i) => {
                &&& from <= i
                &&& occurs_at(hay@, needle@, i as int)
                &&& forall|j: int| from <= j < i ==> !occurs_at(hay@, needle@, j)
            },
            None => forall|j: int| from <= j ==> !occurs_at(hay@, needle@, j),
        },
{
    if needle.len() > hay.len() {
        return None;
    }
    let last: usize = hay.len() - needle.len();
    let mut i: usize = from;
    while i < last
        invariant
            from <= i,
            last == hay@.len() - needle@.len(),
            needle@.len() <= hay@.len(),
            forall|j: int| from <= j < i ==> !occurs_at(hay@, needle@, j),
        decreases last - i,
    {
        if matches_at(hay, needle, i) {
            return Some(i);
        }
        i += 1;
    }
    if matches_at(hay, needle, i) {
        return Some(i);
    }
    None
}

pub fn contains(hay: &str, needle: &str) -> (r: bool)
    ensures
        r == contains_text(hay@, needle@),
{
    let h = chars_of(hay);
    let n = chars_of(needle);
    match find_from(h.as_slice(), n.as_slice(), 0) {
        Some(_) => true,
        None => false,
    }
}

pub fn starts_with(s: &str, prefix: &str) -> (r: bool)
    ensures
        r == prefix@.is_prefix_of(s@),
{
    let h = chars_of(s);
    let n = chars_of(prefix);
    matches_at(h.as_slice(), n.as_slice(), 0)
}

pub fn ends_with(s: &str, suffix: &str) -> (r: bool)
    ensures
        r == suffix@.is_suffix_of(s@),
{
    let h = chars_of(s);
    let n = chars_of(suffix);
    if n.len() > h.len() {
        return false;
    }
    matches_at(h.as_slice(), n.as_slice(), h.len() - n.len())
}

/// Membership in a list of strings.
pub fn in_list(list: &[String], s: &str) -> (r: bool)
    ensures
        r == texts(list@).contains(s@),
{
    let mut i: usize = 0;
    while i < list.len()
        invariant
            i <= list.len(),
            forall|j: int| 0 <= j < i ==> texts(list@)[j] != s@,
        decreases list.len() - i,
    {
        if same(list[i].as_str(), s) {
            proof {
                assert(texts(list@)[i as int] == s@);
            }
            return true;
        }
        i += 1;
    }
    false
}

// ---------------------------------------------------------------------------
// ASCII lower case
// ---------------------------------------------------------------------------

pub open spec fn lower_char(c: char) -> char {
    if 'A' <= c && c <= 'Z' {
        ((c as u32) + 32) as char
    } else {
        c
    }
}

/// ASCII letters in lower case, everything else as it was.
pub open spec fn ascii_lower(s: Text) -> Text {
    s.map_values(|c: char| lower_char(c))
}

fn lower_one(c: char) -> (r: char)
    ensures
        r == lower_char(c),
{
    if 'A' <= c && c <= 'Z' {
        ((c as u8) + 32) as char
    } else {
        c
    }
}

pub fn to_ascii_lower(s: &str) -> (out: String)
    ensures
        out@ == ascii_lower(s@),
{
    let cs = chars_of(s);
    let mut out = String::new();
    let mut i: usize = 0;
    while i < cs.len()
        invariant
            i <= cs.len(),
            cs@ == s@,
            out@ == ascii_lower(s@).take(i as int),
        decreases cs.len() - i,
    {
        out.push(lower_one(cs[i]));
        proof {
            assert(ascii_lower(s@).take(i + 1) =~= ascii_lower(s@).take(i as int).push(
                ascii_lower(s@)[i as int],
            ));
        }
        i += 1;
    }
    proof {
        assert(ascii_lower(s@).take(s@.len() as int) =~= ascii_lower(s@));
    }
    out
}


// ---------------------------------------------------------------------------
// Joining
// ---------------------------------------------------------------------------

/// The parts in order, with `sep` between neighbours.
pub open spec fn joined(parts: Seq<Text>, sep: Text) -> Text
    decreases parts.len(),
{
    if parts.len() == 0 {
        Seq::empty()
    } else if parts.len() == 1 {
        parts[0]
    } else {
        joined(parts.drop_last(), sep) + sep + parts.last()
    }
}

pub fn join(parts: &[String], sep: &str) -> (out: String)
    ensures
        out@ == joined(texts(parts@), sep@),
{
    let mut out = String::new();
    let mut i: usize = 0;
    let ghost all = texts(parts@);
    while i < parts.len()
        invariant
            i <= parts.len(),
            all == texts(parts@),
            out@ == joined(all.take(i as int), sep@),
        decreases parts.len() - i,
    {
        proof {
            assert(all.take(i + 1).drop_last() =~= all.take(i as int));
            assert(all.take(i + 1).last() == parts@[i as int]@);
        }
        if i > 0 {
            out.append(sep);
            out.append(parts[i].as_str());
        } else {
            proof {
                assert(Seq::<char>::empty() + parts@[0]@ =~= parts@[0]@);
                assert(all.take(1)[0] == parts@[0]@);
            }
            out.append(parts[i].as_str());
        }
        i += 1;
    }
    proof {
        assert(all.take(parts@.len() as int) =~= all);
    }
    out
}

/// The text that `Debug` writes for a text: between quotes and with escapes.
pub uninterp spec fn debug_form(s: Seq<char>) -> Seq<char>;

/// What std's `Debug` for `str` writes, as `format!("{:?}", s)` gives it. Which
/// characters it escapes is left unsaid: that is in std's own tables.
#[verifier::external_body]
pub(crate) fn debug_text(s: &str) -> (r: String)
    ensures
        r@ == debug_form(s@),
{
    format!("{:?}", s)
}

/// The texts of a list as `Debug` writes them.
pub open spec fn debug_forms(list: Seq<Text>) -> Seq<Text> {
    list.map_values(|t: Text| debug_form(t))
}

/// What `Debug` writes for a list of texts.
pub fn debug_list(list: &[String]) -> (r: String)
    ensures
        r@ == "["@ + joined(debug_forms(texts(list@)), ", "@) + "]"@,
{
    let ghost all = texts(list@);
    let mut parts: Vec<String> = Vec::new();
    let mut i: usize = 0;
    while i < list.len()
        invariant
            i <= list.len(),
            all == texts(list@),
            parts@.len() == i,
            forall|j: int| 0 <= j < i ==> (#[trigger] parts@[j])@ == debug_form(all[j]),
        decreases list.len() - i,
    {
        parts.push(debug_text(list[i].as_str()));
        i += 1;
    }
    proof {
        assert(texts(parts@) =~= debug_forms(all));
    }
    let mut r = "[".to_owned();
    let inner = join(parts.as_slice(), ", ");
    r.append(inner.as_str());
    r.append("]");
    r
}

/// The lower case of a text, by Unicode's rules.
pub uninterp spec fn lowercase(s: Seq<char>) -> Seq<char>;

/// What `str::to_lowercase` of std gives. Which letters it turns into which is
/// left unsaid: that is in std's own tables.
#[verifier::external_body]
pub(crate) fn to_lowercase(s: &str) -> (r: String)
    ensures
        r@ == lowercase(s@),
{
    s.to_lowercase()
}

// ---------------------------------------------------------------------------
// Splitting
// ---------------------------------------------------------------------------

/// The pieces between the occurrences of `c`: one more piece than occurrences.
pub open spec fn split_text(s: Text, c: char) -> Seq<Text>
    decreases s.len(),
{
    if s.len() == 0 {
        seq![Seq::empty()]
    } else {
        let before = split_text(s.drop_last(), c);
        if s.last() == c {
            before.push(Seq::empty())
        } else {
            before.drop_last().push(before.last().push(s.last()))
        }
    }
}

/// There is always a last piece, and no piece holds the separator.
pub proof fn lemma_split_pieces(s: Text, c: char)
    ensures
        split_text(s, c).len() >= 1,
        forall|i: int| 0 <= i < split_text(s, c).len() ==> !(#[trigger] split_text(s, c)[i]).contains(c),
    decreases s.len(),
{
    if s.len() > 0 {
        lemma_split_pieces(s.drop_last(), c);
        let before = split_text(s.drop_last(), c);
        assert forall|i: int| 0 <= i < split_text(s, c).len() implies !(#[trigger] split_text(s, c)[i]).contains(c) by {
            if s.last() != c && i == before.len() - 1 {
                let piece = before.last().push(s.last());
                assert(!before[before.len() - 1].contains(c));
                assert forall|k: int| 0 <= k < piece.len() implies piece[k] != c by {
                    if k < before.last().len() {
                        assert(before.last()[k] == piece[k]);
                    }
                }
            }
        }
    }
}

/// Joining the pieces with the separator gives the text back.
pub proof fn split_then_join(s: Text, c: char)
    ensures
        joined(split_text(s, c), seq![c]) == s,
    decreases s.len(),
{
    let sep = seq![c];
    if s.len() > 0 {
        split_then_join(s.drop_last(), c);
        lemma_split_pieces(s.drop_last(), c);
        let before = split_text(s.drop_last(), c);
        let whole = split_text(s, c);
        if s.last() == c {
            assert(whole.drop_last() =~= before);
            assert(joined(before, sep) + sep + Seq::<char>::empty() =~= s);
        } else if before.len() == 1 {
            assert(whole[0] =~= s);
        } else {
            assert(whole.drop_last() =~= before.drop_last());
            assert(joined(before.drop_last(), sep) + sep + before.last().push(s.last()) =~= (joined(
                before.drop_last(),
                sep,
            ) + sep + before.last()).push(s.last()));
            assert(s.drop_last().push(s.last()) =~= s);
        }
    }
}

/// The pieces of a text between the occurrences of one character.
pub fn split(s: &str, c: char) -> (out: Vec<String>)
    ensures
        texts(out@) == split_text(s@, c),
{
    let cs = chars_of(s);
    let mut out: Vec<String> = Vec::new();
    let mut piece = String::new();
    let mut i: usize = 0;
    proof {
        assert(s@.take(0) =~= Seq::<char>::empty());
        assert(texts(out@).push(piece@) =~= seq![Seq::<char>::empty()]);
    }
    while i < cs.len()
        invariant
            i <= cs.len(),
            cs@ == s@,
            texts(out@).push(piece@) == split_text(s@.take(i as int), c),
        decreases cs.len() - i,
    {
        proof {
            assert(s@.take(i + 1).drop_last() =~= s@.take(i as int));
            assert(texts(out@).push(piece@).drop_last() =~= texts(out@));
            lemma_texts_push(out@, piece);
        }
        if cs[i] == c {
            out.push(piece);
            piece = String::new();
        } else {
            piece.push(cs[i]);
        }
        i += 1;
    }
    proof {
        assert(s@.take(s@.len() as int) =~= s@);
        lemma_texts_push(out@, piece);
    }
    out.push(piece);
    out
}


/// The lines of a text: ended by `\n` or `\r\n`, the last one perhaps not ended.
pub open spec fn text_lines(s: Text) -> Seq<Text> {
    let pieces = split_text(s, '\n');
    let ended = pieces.drop_last().map_values(|p: Text| without_cr(p));
    if pieces.last().len() == 0 {
        ended
    } else {
        ended.push(pieces.last())
    }
}

/// A line without one carriage return at its end.
pub open spec fn without_cr(s: Text) -> Text {
    if s.len() > 0 && s.last() == '\r' {
        s.drop_last()
    } else {
        s
    }
}

fn strip_cr(s: &str) -> (out: String)
    ensures
        out@ == without_cr(s@),
{
    let n = s.unicode_len();
    if n > 0 && s.get_char(n - 1) == '\r' {
        proof {
            assert(s@.subrange(0, n - 1) =~= s@.drop_last());
        }
        s.substring_char(0, n - 1).to_owned()
    } else {
        s.to_owned()
    }
}

pub fn lines(s: &str) -> (out: Vec<String>)
    ensures
        texts(out@) == text_lines(s@),
{
    let pieces = split(s, '\n');
    proof {
        lemma_split_pieces(s@, '\n');
    }
    let ghost spl = split_text(s@, '\n');
    let ghost ended = spl.drop_last().map_values(|p: Text| without_cr(p));
    let mut out: Vec<String> = Vec::new();
    let mut i: usize = 0;
    let n: usize = pieces.len() - 1;
    while i < n
        invariant
            i <= n,
            n == spl.len() - 1,
            texts(pieces@) == spl,
            pieces@.len() == spl.len(),
            ended == spl.drop_last().map_values(|p: Text| without_cr(p)),
            texts(out@) == ended.take(i as int),
        decreases n - i,
    {
        let line = strip_cr(pieces[i].as_str());
        proof {
            lemma_texts_push(out@, line);
            assert(texts(pieces@)[i as int] == pieces@[i as int]@);
            assert(ended.take(i + 1) =~= ended.take(i as int).push(line@));
        }
        out.push(line);
        i += 1;
    }
    proof {
        assert(ended.take(n as int) =~= ended);
        assert(texts(pieces@)[n as int] == pieces@[n as int]@);
        lemma_texts_push(out@, pieces@[n as int]);
    }
    if pieces[n].as_str().is_empty() {
        out
    } else {
        out.push(pieces[n].clone());
        out
    }
}

// ---------------------------------------------------------------------------
// Trimming
// ---------------------------------------------------------------------------

/// The classes of characters that get trimmed.
#[derive(Clone, Copy, PartialEq, Eq, Structural)]
pub enum CharClass {
    /// Unicode white space.
    Space,
    /// `\r` and `\n`.
    LineBreak,
    /// One given character.
    Only(char),
}

/// The characters with the Unicode property White_Space.
pub open spec fn white_space(c: char) -> bool {
    let u = c as u32;
    ||| 9 <= u <= 13
    ||| u == 32
    ||| u == 0x85
    ||| u == 0xA0
    ||| u == 0x1680
    ||| 0x2000 <= u <= 0x200A
    ||| u == 0x2028
    ||| u == 0x2029
    ||| u == 0x202F
    ||| u == 0x205F
    ||| u == 0x3000
}

pub open spec fn in_class(c: char, class: CharClass) -> bool {
    match class {
        CharClass::Space => white_space(c),
        CharClass::LineBreak => c == '\r' || c == '\n',
        CharClass::Only(x) => c == x,
    }
}

fn is_in_class(c: char, class: CharClass) -> (r: bool)
    ensures
        r == in_class(c, class),
{
    match class {
        CharClass::Space => {
            let u: u32 = c as u32;
            (9 <= u && u <= 13) || u == 32 || u == 0x85 || u == 0xA0 || u == 0x1680 || (0x2000 <= u
                && u <= 0x200A) || u == 0x2028 || u == 0x2029 || u == 0x202F || u == 0x205F || u
                == 0x3000
        },
        CharClass::LineBreak => c == '\r' || c == '\n',
        CharClass::Only(x) => c == x,
    }
}

/// A text without its leading characters of a class.
pub open spec fn trimmed_start(s: Text, class: CharClass) -> Text
    decreases s.len(),
{
    if s.len() > 0 && in_class(s[0], class) {
        trimmed_start(s.drop_first(), class)
    } else {
        s
    }
}

/// A text without its trailing characters of a class.
pub open spec fn trimmed_end(s: Text, class: CharClass) -> Text
    decreases s.len(),
{
    if s.len() > 0 && in_class(s.last(), class) {
        trimmed_end(s.drop_last(), class)
    } else {
        s
    }
}

pub open spec fn trimmed_both(s: Text, class: CharClass) -> Text {
    trimmed_end(trimmed_start(s, class), class)
}

/// A text without the white space around it.
pub open spec fn trimmed(s: Text) -> Text {
    trimmed_both(s, CharClass::Space)
}

pub fn trim_class_start(s: &str, class: CharClass) -> (out: String)
    ensures
        out@ == trimmed_start(s@, class),
{
    let cs = chars_of(s);
    let mut i: usize = 0;
    proof {
        assert(s@.subrange(0, s@.len() as int) =~= s@);
    }
    while i < cs.len() && is_in_class(cs[i], class)
        invariant
            i <= cs.len(),
            cs@ == s@,
            trimmed_start(s@, class) == trimmed_start(s@.subrange(i as int, s@.len() as int), class),
        decreases cs.len() - i,
    {
        proof {
            assert(s@.subrange(i as int, s@.len() as int).drop_first() =~= s@.subrange(
                i + 1,
                s@.len() as int,
            ));
        }
        i += 1;
    }
    s.substring_char(i, cs.len()).to_owned()
}

pub fn trim_class_end(s: &str, class: CharClass) -> (out: String)
    ensures
        out@ == trimmed_end(s@, class),
{
    let cs = chars_of(s);
    let mut n: usize = cs.len();
    proof {
        assert(s@.subrange(0, s@.len() as int) =~= s@);
    }
    while n > 0 && is_in_class(cs[n - 1], class)
        invariant
            n <= cs.len(),
            cs@ == s@,
            trimmed_end(s@, class) == trimmed_end(s@.subrange(0, n as int), class),
        decreases n,
    {
        proof {
            assert(s@.subrange(0, n as int).drop_last() =~= s@.subrange(0, n - 1));
        }
        n -= 1;
    }
    s.substring_char(0, n).to_owned()
}

pub fn trim_class(s: &str, class: CharClass) -> (out: String)
    ensures
        out@ == trimmed_both(s@, class),
{
    let start = trim_class_start(s, class);
    trim_class_end(start.as_str(), class)
}

pub fn trim(s: &str) -> (out: String)
    ensures
        out@ == trimmed(s@),
{
    trim_class(s, CharClass::Space)
}

// ---------------------------------------------------------------------------
// Numbers
// ---------------------------------------------------------------------------

pub open spec fn digit(n: nat) -> char {
    (48 + n % 10) as char
}

/// The decimal digits of a number.
pub open spec fn decimal(n: nat) -> Text
    decreases n,
{
    if n < 10 {
        seq![digit(n)]
    } else {
        decimal(n / 10).push(digit(n))
    }
}

pub fn render(n: u64) -> (out: String)
    ensures
        out@ == decimal(n as nat),
    decreases n,
{
    let d: char = ((48 + n % 10) as u8) as char;
    if n < 10 {
        let mut out = String::new();
        out.push(d);
        proof {
            assert(Seq::<char>::empty().push(d) =~= seq![d]);
        }
        out
    } else {
        let mut out = render(n / 10);
        out.push(d);
        out
    }
}

} // verus!

//! The order of texts, and sorted lists without repetition.
use vstd::prelude::*;
use vstd::string::*;

use crate::paths::{parts_of, path_parts};
use crate::text::{chars_of, join, joined, lemma_texts_push, same, texts, Text};

verus! {

/// `a` comes before `b` because of what stands at position `k`.
pub open spec fn less_at(a: Text, b: Text, k: int) -> bool {
    &&& 0 <= k <= a.len()
    &&& k < b.len()
    &&& forall|j: int| 0 <= j < k ==> a[j] == b[j]
    &&& k == a.len() || a[k] < b[k]
}

/// Lexicographic order by code point, which is also the order of the UTF-8 bytes.
pub open spec fn text_less(a: Text, b: Text) -> bool {
    exists|k: int| less_at(a, b, k)
}

/// Each text comes before the next ones, so none occurs twice.
pub open spec fn increasing(list: Seq<Text>) -> bool {
    forall|i: int, j: int| 0 <= i < j < list.len() ==> text_less(#[trigger] list[i], #[trigger] list[j])
}

/// No text comes before itself.
pub proof fn less_is_irreflexive(a: Text)
    ensures
        !text_less(a, a),
{
}

/// The order is transitive.
pub proof fn less_is_transitive(a: Text, b: Text, c: Text)
    requires
        text_less(a, b),
        text_less(b, c),
    ensures
        text_less(a, c),
{
    let k = choose|k: int| less_at(a, b, k);
    let l = choose|l: int| less_at(b, c, l);
    let m = if k < l {
        k
    } else {
        l
    };
    assert(less_at(a, c, m));
}

/// The first difference orders two texts: the smaller character comes first, and a
/// text comes before those that it begins.
pub proof fn the_first_difference_orders(head: Text, c: char, a: Text, d: char, b: Text)
    ensures
        c < d ==> text_less(head.push(c) + a, head.push(d) + b),
        text_less(head, head.push(c) + a),
{
    let x = head.push(c) + a;
    let y = head.push(d) + b;
    if c < d {
        assert(less_at(x, y, head.len() as int));
    }
    assert(less_at(head, x, head.len() as int));
}

/// Of two different texts one comes before the other.
pub proof fn less_is_total(a: Text, b: Text)
    ensures
        a == b || text_less(a, b) || text_less(b, a),
    decreases a.len(),
{
    if a.len() == 0 {
        if b.len() > 0 {
            assert(less_at(a, b, 0));
        } else {
            assert(a =~= b);
        }
    } else if b.len() == 0 {
        assert(less_at(b, a, 0));
    } else if a[0] != b[0] {
        assert(less_at(a, b, 0) || less_at(b, a, 0));
    } else {
        let a1 = a.drop_first();
        let b1 = b.drop_first();
        less_is_total(a1, b1);
        if a1 == b1 {
            assert(a =~= seq![a[0]] + a1);
            assert(b =~= seq![b[0]] + b1);
        } else if text_less(a1, b1) {
            let k = choose|k: int| less_at(a1, b1, k);
            lemma_less_under_head(a, b, k);
        } else {
            let k = choose|k: int| less_at(b1, a1, k);
            lemma_less_under_head(b, a, k);
        }
    }
}

proof fn lemma_less_under_head(a: Text, b: Text, k: int)
    requires
        a.len() > 0,
        b.len() > 0,
        a[0] == b[0],
        less_at(a.drop_first(), b.drop_first(), k),
    ensures
        text_less(a, b),
{
    assert forall|j: int| 0 <= j < k + 1 implies a[j] == b[j] by {
        if j > 0 {
            assert(a.drop_first()[j - 1] == b.drop_first()[j - 1]);
        }
    }
    assert(less_at(a, b, k + 1));
}

/// Whether one text comes before another.
pub fn is_less(a: &str, b: &str) -> (r: bool)
    ensures
        r == text_less(a@, b@),
{
    let x = chars_of(a);
    let y = chars_of(b);
    let mut k: usize = 0;
    while k < x.len() && k < y.len() && x[k] == y[k]
        invariant
            k <= x.len(),
            k <= y.len(),
            x@ == a@,
            y@ == b@,
            forall|j: int| 0 <= j < k ==> a@[j] == b@[j],
        decreases x.len() - k,
    {
        k += 1;
    }
    if k == y.len() {
        return false;
    }
    if k == x.len() {
        proof {
            assert(less_at(a@, b@, k as int));
        }
        return true;
    }
    if x[k] < y[k] {
        proof {
            assert(less_at(a@, b@, k as int));
        }
        true
    } else {
        false
    }
}

/// The place of a text in an increasing list, and whether it is there already.
fn place_of(list: &[String], s: &str) -> (r: (usize, bool))
    requires
        increasing(texts(list@)),
    ensures
        r.0 <= list@.len(),
        forall|j: int| 0 <= j < r.0 ==> text_less(#[trigger] texts(list@)[j], s@),
        r.1 ==> r.0 < list@.len() && texts(list@)[r.0 as int] == s@,
        !r.1 ==> forall|j: int| r.0 <= j < list@.len() ==> text_less(s@, #[trigger] texts(list@)[j]),
{
    let ghost all = texts(list@);
    let mut i: usize = 0;
    while i < list.len() && is_less(list[i].as_str(), s)
        invariant
            i <= list.len(),
            all == texts(list@),
            forall|j: int| 0 <= j < i ==> text_less(#[trigger] all[j], s@),
        decreases list.len() - i,
    {
        i += 1;
    }
    if i < list.len() && same(list[i].as_str(), s) {
        return (i, true);
    }
    proof {
        assert forall|j: int| i <= j < all.len() implies text_less(s@, #[trigger] all[j]) by {
            less_is_total(s@, all[i as int]);
            if i < j {
                less_is_transitive(s@, all[i as int], all[j]);
            }
        }
    }
    (i, false)
}

proof fn lemma_inserted(before: Seq<Text>, i: int, s: Text)
    requires
        0 <= i <= before.len(),
        increasing(before),
        forall|j: int| 0 <= j < i ==> text_less(#[trigger] before[j], s),
        forall|j: int| i <= j < before.len() ==> text_less(s, #[trigger] before[j]),
    ensures
        increasing(before.insert(i, s)),
        forall|t: Text| before.insert(i, s).contains(t) <==> (before.contains(t) || t == s),
{
    let after = before.insert(i, s);
    assert forall|a: int, b: int| 0 <= a < b < after.len() implies text_less(
        #[trigger] after[a],
        #[trigger] after[b],
    ) by {
        if a < i && b > i {
            assert(text_less(before[a], before[b - 1]));
        } else if a > i {
            assert(text_less(before[a - 1], before[b - 1]));
        } else if b < i {
            assert(text_less(before[a], before[b]));
        }
    }
    assert forall|t: Text| after.contains(t) <==> (before.contains(t) || t == s) by {
        if before.contains(t) {
            let j = choose|j: int| 0 <= j < before.len() && before[j] == t;
            if j < i {
                assert(after[j] == t);
            } else {
                assert(after[j + 1] == t);
            }
        }
        assert(after[i] == s);
        if after.contains(t) {
            let j = choose|j: int| 0 <= j < after.len() && after[j] == t;
            if j < i {
                assert(before[j] == t);
            } else if j > i {
                assert(before[j - 1] == t);
            }
        }
    }
}

/// Puts a text in its place in an increasing list, unless it is there already.
pub fn insert_increasing(list: &mut Vec<String>, s: &str)
    requires
        increasing(texts(old(list)@)),
    ensures
        increasing(texts(final(list)@)),
        forall|t: Text|
            texts(final(list)@).contains(t) <==> (texts(old(list)@).contains(t) || t == s@),
{
    let ghost before = texts(list@);
    let (i, there) = place_of(list.as_slice(), s);
    if !there {
        list.insert(i, s.to_owned());
        proof {
            assert(texts(list@) =~= before.insert(i as int, s@));
            lemma_inserted(before, i as int, s@);
        }
    }
}

proof fn lemma_pushed_contains(list: Seq<Text>, s: Text, t: Text)
    ensures
        list.push(s).contains(t) <==> (list.contains(t) || t == s),
{
    if list.contains(t) {
        let j = choose|j: int| 0 <= j < list.len() && list[j] == t;
        assert(list.push(s)[j] == t);
    }
    assert(list.push(s)[list.len() as int] == s);
}

/// `out` holds the texts of `list` in order, each once.
pub open spec fn sorts(out: Seq<Text>, list: Seq<Text>) -> bool {
    &&& increasing(out)
    &&& forall|t: Text| out.contains(t) <==> list.contains(t)
}

/// The texts of a list in order, each once.
pub open spec fn sorted(list: Seq<Text>) -> Seq<Text> {
    choose|out: Seq<Text>| sorts(out, list)
}

/// The texts of a set in order.
pub open spec fn sorted_set(set: Set<Text>) -> Seq<Text> {
    choose|out: Seq<Text>| sorts_set(out, set)
}

pub open spec fn sorts_set(out: Seq<Text>, set: Set<Text>) -> bool {
    &&& increasing(out)
    &&& forall|t: Text| out.contains(t) <==> set.contains(t)
}

/// Whatever sorts a set is its sorted form.
pub proof fn sorts_set_is_sorted(out: Seq<Text>, set: Set<Text>)
    requires
        sorts_set(out, set),
    ensures
        out == sorted_set(set),
{
    let other = sorted_set(set);
    assert(sorts_set(other, set));
    assert forall|t: Text| out.contains(t) <==> other.contains(t) by {
        assert(set.contains(t) <==> other.contains(t));
    }
    increasing_is_unique(out, other);
}

/// The place of a text that is not in an increasing list, from a position on.
proof fn lemma_place(list: Seq<Text>, s: Text, i: int) -> (r: int)
    requires
        increasing(list),
        !list.contains(s),
        0 <= i <= list.len(),
        forall|j: int| 0 <= j < i ==> text_less(#[trigger] list[j], s),
    ensures
        i <= r <= list.len(),
        forall|j: int| 0 <= j < r ==> text_less(#[trigger] list[j], s),
        forall|j: int| r <= j < list.len() ==> text_less(s, #[trigger] list[j]),
    decreases list.len() - i,
{
    if i < list.len() && text_less(list[i], s) {
        lemma_place(list, s, i + 1)
    } else {
        if i < list.len() {
            less_is_total(s, list[i]);
            assert(list.contains(list[i]));
            assert forall|j: int| i <= j < list.len() implies text_less(s, #[trigger] list[j]) by {
                if i < j {
                    less_is_transitive(s, list[i], list[j]);
                }
            }
        }
        i
    }
}

proof fn lemma_sortable(list: Seq<Text>) -> (out: Seq<Text>)
    ensures
        sorts(out, list),
    decreases list.len(),
{
    if list.len() == 0 {
        Seq::empty()
    } else {
        let head = list.drop_last();
        let s = list.last();
        let before = lemma_sortable(head);
        assert(list =~= head.push(s));
        assert forall|t: Text| #[trigger] list.contains(t) <==> (head.contains(t) || t == s) by {
            lemma_pushed_contains(head, s, t);
        }
        if before.contains(s) {
            before
        } else {
            let i = lemma_place(before, s, 0);
            lemma_inserted(before, i, s);
            before.insert(i, s)
        }
    }
}

/// Every list can be sorted: its sorted form is in order and holds the same
/// texts, each once.
pub proof fn every_list_can_be_sorted(list: Seq<Text>)
    ensures
        sorts(sorted(list), list),
{
    let out = lemma_sortable(list);
    assert(sorts(out, list));
}

/// Every finite set can be sorted: its sorted form is in order and holds the same
/// texts.
pub proof fn every_set_can_be_sorted(set: Set<Text>)
    requires
        set.finite(),
    ensures
        sorts_set(sorted_set(set), set),
{
    let list = set.to_seq();
    set.lemma_to_seq_to_set_id();
    let out = lemma_sortable(list);
    assert forall|t: Text| out.contains(t) <==> set.contains(t) by {
        if set.contains(t) {
            assert(list.to_set().contains(t));
        }
    }
    assert(sorts_set(out, set));
}

/// Whatever sorts a list is its sorted form.
pub proof fn sorts_is_sorted(out: Seq<Text>, list: Seq<Text>)
    requires
        sorts(out, list),
    ensures
        out == sorted(list),
{
    let other = sorted(list);
    assert(sorts(other, list));
    assert forall|t: Text| out.contains(t) <==> other.contains(t) by {
        assert(list.contains(t) <==> other.contains(t));
    }
    increasing_is_unique(out, other);
}

/// The texts of a list in order, each once.
pub fn sort_unique(list: &[String]) -> (out: Vec<String>)
    ensures
        sorts(texts(out@), texts(list@)),
        texts(out@) == sorted(texts(list@)),
{
    let mut out: Vec<String> = Vec::new();
    let mut i: usize = 0;
    while i < list.len()
        invariant
            i <= list.len(),
            increasing(texts(out@)),
            forall|t: Text| texts(out@).contains(t) <==> texts(list@).take(i as int).contains(t),
        decreases list.len() - i,
    {
        let ghost before = texts(out@);
        insert_increasing(&mut out, list[i].as_str());
        proof {
            let all = texts(list@);
            let head = all.take(i as int);
            let s = list@[i as int]@;
            assert(all.take(i + 1) =~= head.push(s));
            assert forall|t: Text| texts(out@).contains(t) <==> all.take(i + 1).contains(t) by {
                lemma_pushed_contains(head, s, t);
                assert(before.contains(t) <==> head.contains(t));
                assert(texts(out@).contains(t) <==> (before.contains(t) || t == s));
            }
        }
        i += 1;
    }
    proof {
        assert(texts(list@).take(list@.len() as int) =~= texts(list@));
        sorts_is_sorted(texts(out@), texts(list@));
    }
    out
}

/// Two increasing lists of the same texts are the same list.
pub proof fn increasing_is_unique(a: Seq<Text>, b: Seq<Text>)
    requires
        increasing(a),
        increasing(b),
        forall|t: Text| a.contains(t) <==> b.contains(t),
    ensures
        a == b,
    decreases a.len(),
{
    if a.len() == 0 {
        if b.len() > 0 {
            assert(b.contains(b[0]));
        }
        assert(a =~= b);
    } else {
        assert(a.contains(a.last()));
        let bi = choose|i: int| 0 <= i < b.len() && b[i] == a.last();
        assert(b.contains(b.last()));
        let ai = choose|i: int| 0 <= i < a.len() && a[i] == b.last();
        if bi < b.len() - 1 {
            assert(text_less(b[bi], b[b.len() - 1]));
            if ai < a.len() - 1 {
                assert(text_less(a[ai], a[a.len() - 1]));
                less_is_transitive(a.last(), b.last(), a.last());
            }
            less_is_irreflexive(a.last());
        }
        assert(a.last() == b.last());
        let a1 = a.drop_last();
        let b1 = b.drop_last();
        less_is_irreflexive(a.last());
        assert forall|t: Text| a1.contains(t) implies b1.contains(t) by {
            let i = choose|i: int| 0 <= i < a1.len() && a1[i] == t;
            assert(a.contains(a[i]));
            let j = choose|j: int| 0 <= j < b.len() && b[j] == t;
            assert(text_less(a[i], a[a.len() - 1]));
            assert(b1[j] == t);
        }
        assert forall|t: Text| b1.contains(t) implies a1.contains(t) by {
            let i = choose|i: int| 0 <= i < b1.len() && b1[i] == t;
            assert(b.contains(b[i]));
            let j = choose|j: int| 0 <= j < a.len() && a[j] == t;
            assert(text_less(b[i], b[b.len() - 1]));
            assert(a1[j] == t);
        }
        increasing_is_unique(a1, b1);
        assert(a =~= a1.push(a.last()));
        assert(b =~= b1.push(b.last()));
    }
}

// ---------------------------------------------------------------------------
// Paths
// ---------------------------------------------------------------------------

/// Orders the parts of paths: the root, `.`, `..`, then names.
pub open spec fn part_key(part: Text) -> Text {
    if part == "/"@ {
        seq!['\u{1}']
    } else if part == "."@ {
        seq!['\u{2}']
    } else if part == ".."@ {
        seq!['\u{3}']
    } else {
        seq!['\u{4}'] + part
    }
}

/// Paths are ordered part by part, as their keys are ordered as texts.
pub open spec fn path_key(path: Text) -> Text {
    joined(path_parts(path).map_values(|part: Text| part_key(part)), seq!['\u{0}'])
}

pub open spec fn path_keys(paths: Seq<Text>) -> Seq<Text> {
    paths.map_values(|p: Text| path_key(p))
}

/// A path stands at position `j`, and nothing before it has the same parts.
pub open spec fn first_at(path: Text, list: Seq<Text>, j: int) -> bool {
    &&& 0 <= j < list.len()
    &&& list[j] == path
    &&& !path_keys(list.take(j)).contains(path_key(path))
}

pub open spec fn is_first(path: Text, list: Seq<Text>) -> bool {
    exists|j: int| first_at(path, list, j)
}

/// `out` holds the paths of `list` in order. Of paths with the same parts it
/// holds the one that comes first in `list`.
pub open spec fn sorts_paths(out: Seq<Text>, list: Seq<Text>) -> bool {
    &&& increasing(path_keys(out))
    &&& forall|t: Text| path_keys(out).contains(t) <==> path_keys(list).contains(t)
    &&& forall|i: int| 0 <= i < out.len() ==> is_first(#[trigger] out[i], list)
}

fn key_of_part(part: &str) -> (r: String)
    ensures
        r@ == part_key(part@),
{
    let mut r = String::new();
    if same(part, "/") {
        r.push('\u{1}');
    } else if same(part, ".") {
        r.push('\u{2}');
    } else if same(part, "..") {
        r.push('\u{3}');
    } else {
        r.push('\u{4}');
        r.append(part);
    }
    proof {
        assert(r@ =~= part_key(part@));
    }
    r
}

fn key_of_path(path: &str) -> (r: String)
    ensures
        r@ == path_key(path@),
{
    let parts = parts_of(path);
    let ghost keys = path_parts(path@).map_values(|part: Text| part_key(part));
    let mut marked: Vec<String> = Vec::new();
    let mut i: usize = 0;
    while i < parts.len()
        invariant
            i <= parts.len(),
            texts(parts@) == path_parts(path@),
            keys == path_parts(path@).map_values(|part: Text| part_key(part)),
            texts(marked@) == keys.take(i as int),
        decreases parts.len() - i,
    {
        let key = key_of_part(parts[i].as_str());
        proof {
            assert(texts(parts@)[i as int] == parts@[i as int]@);
            lemma_texts_push(marked@, key);
            assert(keys.take(i + 1) =~= keys.take(i as int).push(key@));
        }
        marked.push(key);
        i += 1;
    }
    let mut sep = String::new();
    sep.push('\u{0}');
    proof {
        assert(keys.take(keys.len() as int) =~= keys);
        assert(sep@ =~= seq!['\u{0}']);
    }
    join(marked.as_slice(), sep.as_str())
}

/// The paths of a list in order, each once.
pub fn sort_paths(list: &[String]) -> (out: Vec<String>)
    ensures
        sorts_paths(texts(out@), texts(list@)),
{
    let mut out: Vec<String> = Vec::new();
    let mut keys: Vec<String> = Vec::new();
    let ghost all = texts(list@);
    let mut i: usize = 0;
    proof {
        assert(path_keys(texts(out@)) =~= texts(keys@));
        assert(path_keys(all.take(0)) =~= Seq::<Text>::empty());
    }
    while i < list.len()
        invariant
            i <= list.len(),
            all == texts(list@),
            texts(keys@) == path_keys(texts(out@)),
            sorts_paths(texts(out@), all.take(i as int)),
        decreases list.len() - i,
    {
        let key = key_of_path(list[i].as_str());
        let ghost before = texts(out@);
        let (at, there) = place_of(keys.as_slice(), key.as_str());
        let ghost head = all.take(i as int);
        let ghost more = all.take(i + 1);
        proof {
            assert(out@.len() == keys@.len()) by {
                assert(texts(keys@).len() == path_keys(texts(out@)).len());
            }
            assert(more =~= head.push(all[i as int]));
            assert(path_keys(more) =~= path_keys(head).push(key@));
            assert forall|t: Text| path_keys(more).contains(t) <==> (path_keys(head).contains(t) || t == key@) by {
                lemma_pushed_contains(path_keys(head), key@, t);
            }
        }
        if there {
            proof {
                assert(path_keys(before).contains(key@)) by {
                    assert(path_keys(before)[at as int] == key@);
                }
                lemma_first_in_longer(before, head, all[i as int]);
                assert(sorts_paths(texts(out@), more));
            }
        } else {
            out.insert(at, list[i].clone());
            keys.insert(at, key);
            proof {
                lemma_inserted(path_keys(before), at as int, key@);
                assert(texts(out@) =~= before.insert(at as int, all[i as int]));
                assert(texts(keys@) =~= path_keys(before).insert(at as int, key@));
                assert(path_keys(texts(out@)) =~= texts(keys@));
                assert(!path_keys(before).contains(key@)) by {
                    if path_keys(before).contains(key@) {
                        let j = choose|j: int| 0 <= j < before.len() && path_keys(before)[j] == key@;
                        assert(text_less(path_keys(before)[j], key@) || text_less(key@, path_keys(before)[j]));
                        less_is_irreflexive(key@);
                    }
                }
                assert(!path_keys(head).contains(key@));
                lemma_first_in_longer(before, head, all[i as int]);
                lemma_last_is_first(head, all[i as int]);
                assert forall|k: int| 0 <= k < texts(out@).len() implies is_first(
                    #[trigger] texts(out@)[k],
                    more,
                ) by {
                    if k < at {
                        assert(texts(out@)[k] == before[k]);
                    } else if k > at {
                        assert(texts(out@)[k] == before[k - 1]);
                    }
                }
                assert forall|t: Text| path_keys(texts(out@)).contains(t) <==> path_keys(more).contains(t) by {
                    assert(path_keys(before).contains(t) <==> path_keys(head).contains(t));
                    assert(texts(keys@).contains(t) <==> (path_keys(before).contains(t) || t == key@));
                }
            }
        }
        i += 1;
    }
    proof {
        assert(all.take(all.len() as int) =~= all);
    }
    out
}

proof fn lemma_first_in_longer(out: Seq<Text>, list: Seq<Text>, extra: Text)
    requires
        forall|i: int| 0 <= i < out.len() ==> is_first(#[trigger] out[i], list),
    ensures
        forall|i: int| 0 <= i < out.len() ==> is_first(#[trigger] out[i], list.push(extra)),
{
    let longer = list.push(extra);
    assert forall|i: int| 0 <= i < out.len() implies is_first(#[trigger] out[i], longer) by {
        let j = choose|j: int| first_at(out[i], list, j);
        assert(longer.take(j) =~= list.take(j));
        assert(first_at(out[i], longer, j));
    }
}

proof fn lemma_last_is_first(list: Seq<Text>, extra: Text)
    requires
        !path_keys(list).contains(path_key(extra)),
    ensures
        is_first(extra, list.push(extra)),
{
    let longer = list.push(extra);
    assert(longer.take(list.len() as int) =~= list);
    assert(first_at(extra, longer, list.len() as int));
}

} // verus!

//! POSIX paths as texts: their parts, names, extensions and ancestors.
use vstd::prelude::*;
use vstd::string::*;

use crate::text::{
    join, joined, lemma_split_pieces, lemma_texts_push, same, split, split_text, texts, Text,
};

verus! {

/// A piece of a path that names something: not empty and not `.`.
pub open spec fn names_something(piece: Text) -> bool {
    piece.len() > 0 && piece != "."@
}

/// The names on a path, `..` among them.
pub open spec fn segments(path: Text) -> Seq<Text> {
    split_text(path, '/').filter(|piece: Text| names_something(piece))
}

pub open spec fn absolute(path: Text) -> bool {
    path.len() > 0 && path[0] == '/'
}

/// What stands before the names: the root, a leading `.`, or nothing.
pub open spec fn path_head(path: Text) -> Seq<Text> {
    if absolute(path) {
        seq!["/"@]
    } else if split_text(path, '/')[0] == "."@ {
        seq!["."@]
    } else {
        Seq::empty()
    }
}

/// The parts of a path. Two paths are the same if their parts are.
pub open spec fn path_parts(path: Text) -> Seq<Text> {
    path_head(path) + segments(path)
}

/// The text of a path with given parts.
pub open spec fn parts_text(parts: Seq<Text>) -> Text {
    if parts.len() > 0 && parts[0] == "/"@ {
        "/"@ + joined(parts.skip(1), "/"@)
    } else {
        joined(parts, "/"@)
    }
}

/// The last part, if it is a name.
pub open spec fn name_of(path: Text) -> Option<Text> {
    let s = segments(path);
    if s.len() == 0 || s.last() == ".."@ {
        None
    } else {
        Some(s.last())
    }
}

/// What follows the last dot of a file name, unless the name starts with that dot.
pub open spec fn extension_of_name(name: Text) -> Option<Text> {
    let pieces = split_text(name, '.');
    if pieces.len() == 1 || pieces.len() == 2 && pieces[0].len() == 0 {
        None
    } else {
        Some(pieces.last())
    }
}

pub open spec fn extension_of(path: Text) -> Option<Text> {
    match name_of(path) {
        Some(name) => extension_of_name(name),
        None => None,
    }
}

/// `path` is `base` or lies beneath it.
pub open spec fn within(path: Text, base: Text) -> bool {
    path_parts(base).is_prefix_of(path_parts(path))
}

/// `path` seen from `base`; an absolute path stands for itself.
pub open spec fn path_joined(base: Text, path: Text) -> Text {
    if absolute(path) || base.len() == 0 {
        path
    } else if base.last() == '/' {
        base + path
    } else {
        base + "/"@ + path
    }
}

pub fn is_absolute(path: &str) -> (r: bool)
    ensures
        r == absolute(path@),
{
    !path.is_empty() && path.get_char(0) == '/'
}

fn piece_names(piece: &str) -> (r: bool)
    ensures
        r == names_something(piece@),
{
    !piece.is_empty() && !same(piece, ".")
}

/// The names on a path.
pub fn segments_of(path: &str) -> (out: Vec<String>)
    ensures
        texts(out@) == segments(path@),
{
    let pieces = split(path, '/');
    let ghost all = split_text(path@, '/');
    let mut out: Vec<String> = Vec::new();
    let mut i: usize = 0;
    proof {
        assert(all.take(0).filter(|piece: Text| names_something(piece)) =~= Seq::empty());
        assert(texts(out@) =~= Seq::empty());
    }
    while i < pieces.len()
        invariant
            i <= pieces.len(),
            all == texts(pieces@),
            texts(out@) == all.take(i as int).filter(|piece: Text| names_something(piece)),
        decreases pieces.len() - i,
    {
        proof {
            assert(all.take(i + 1) =~= all.take(i as int).push(pieces@[i as int]@));
            all.take(i as int).lemma_filter_push(pieces@[i as int]@, |piece: Text| names_something(piece));
            lemma_texts_push(out@, pieces@[i as int]);
        }
        if piece_names(pieces[i].as_str()) {
            out.push(pieces[i].clone());
        }
        i += 1;
    }
    proof {
        assert(all.take(all.len() as int) =~= all);
    }
    out
}

/// The parts of a path.
pub fn parts_of(path: &str) -> (out: Vec<String>)
    ensures
        texts(out@) == path_parts(path@),
{
    let mut out: Vec<String> = Vec::new();
    let pieces = split(path, '/');
    proof {
        lemma_split_pieces(path@, '/');
        assert(texts(pieces@)[0] == pieces@[0]@);
        assert(texts(out@) =~= Seq::empty());
    }
    if is_absolute(path) {
        out.push("/".to_owned());
        proof {
            assert(texts(out@) =~= seq!["/"@]);
        }
    } else if same(pieces[0].as_str(), ".") {
        out.push(".".to_owned());
        proof {
            assert(texts(out@) =~= seq!["."@]);
        }
    }
    let mut rest = segments_of(path);
    let ghost head = texts(out@);
    let ghost tail = texts(rest@);
    out.append(&mut rest);
    proof {
        assert(texts(out@) =~= head + tail);
    }
    out
}

/// The text of a path with given parts.
pub fn text_of_parts(parts: &[String]) -> (out: String)
    ensures
        out@ == parts_text(texts(parts@)),
{
    if parts.len() > 0 && same(parts[0].as_str(), "/") {
        let rest = vstd::slice::slice_subrange(parts, 1, parts.len());
        proof {
            assert(texts(rest@) =~= texts(parts@).skip(1));
            assert(texts(parts@)[0] == parts@[0]@);
        }
        let mut out = "/".to_owned();
        let tail = join(rest, "/");
        out.append(tail.as_str());
        out
    } else {
        proof {
            if parts@.len() > 0 {
                assert(texts(parts@)[0] == parts@[0]@);
            }
        }
        join(parts, "/")
    }
}

/// The last part of a path, if it is a name.
pub fn file_name(path: &str) -> (r: Option<String>)
    ensures
        crate::text::opt_text(r) == name_of(path@),
{
    let mut parts = segments_of(path);
    let ghost all = texts(parts@);
    match parts.pop() {
        Some(last) => {
            proof {
                assert(all.last() == last@);
            }
            if same(last.as_str(), "..") {
                None
            } else {
                Some(last)
            }
        },
        None => None,
    }
}

/// The extension of a path.
pub fn extension(path: &str) -> (r: Option<String>)
    ensures
        crate::text::opt_text(r) == extension_of(path@),
{
    match file_name(path) {
        Some(name) => {
            let mut pieces = split(name.as_str(), '.');
            let ghost all = split_text(name@, '.');
            proof {
                lemma_split_pieces(name@, '.');
                assert(all[0] == pieces@[0]@);
                assert(all.last() == pieces@.last()@);
            }
            if pieces.len() == 1 || pieces.len() == 2 && pieces[0].as_str().is_empty() {
                None
            } else {
                pieces.pop()
            }
        },
        None => None,
    }
}

/// Whether two lists of strings hold the same texts in the same order.
pub fn same_lists(a: &[String], b: &[String]) -> (r: bool)
    ensures
        r == (texts(a@) == texts(b@)),
{
    if a.len() != b.len() {
        proof {
            assert(texts(a@).len() != texts(b@).len());
        }
        return false;
    }
    proof {
        assert(texts(b@).subrange(0, b@.len() as int) =~= texts(b@));
    }
    list_starts_with(b, a)
}

/// Whether one list begins with another.
pub fn list_starts_with(list: &[String], prefix: &[String]) -> (r: bool)
    ensures
        r == texts(prefix@).is_prefix_of(texts(list@)),
{
    if prefix.len() > list.len() {
        return false;
    }
    let ghost p = texts(prefix@);
    let ghost l = texts(list@);
    let mut i: usize = 0;
    while i < prefix.len()
        invariant
            i <= prefix.len() <= list.len(),
            p == texts(prefix@),
            l == texts(list@),
            forall|j: int| 0 <= j < i ==> p[j] == l[j],
        decreases prefix.len() - i,
    {
        if !same(prefix[i].as_str(), list[i].as_str()) {
            proof {
                assert(p[i as int] != l[i as int]);
                assert(l.subrange(0, p.len() as int)[i as int] == l[i as int]);
            }
            return false;
        }
        i += 1;
    }
    proof {
        assert(p =~= l.subrange(0, p.len() as int));
    }
    true
}

/// Whether two paths have the same parts.
pub fn same_path(a: &str, b: &str) -> (r: bool)
    ensures
        r == (path_parts(a@) == path_parts(b@)),
{
    let x = parts_of(a);
    let y = parts_of(b);
    same_lists(x.as_slice(), y.as_slice())
}

/// Whether a path is a directory or lies beneath it.
pub fn lies_within(path: &str, base: &str) -> (r: bool)
    ensures
        r == within(path@, base@),
{
    let p = parts_of(path);
    let b = parts_of(base);
    list_starts_with(p.as_slice(), b.as_slice())
}

/// A path seen from a directory.
pub fn join_path(base: &str, path: &str) -> (out: String)
    ensures
        out@ == path_joined(base@, path@),
{
    if is_absolute(path) || base.is_empty() {
        return path.to_owned();
    }
    let mut out = base.to_owned();
    let n = base.unicode_len();
    if base.get_char(n - 1) == '/' {
        out.append(path);
    } else {
        out.append("/");
        out.append(path);
    }
    out
}

} // verus!

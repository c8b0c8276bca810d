//! What holds of every path.
use vstd::prelude::*;

use crate::paths::{
    absolute, extension_of, extension_of_name, name_of, names_something, path_head, path_joined,
    path_parts, segments, within,
};
use crate::text::{lemma_split_pieces, split_text, Text};
use crate::text_laws::lemma_unsplit;

verus! {

/// The pieces of two texts with a separator between them are those of both.
pub proof fn lemma_split_both(a: Text, c: char, b: Text)
    ensures
        split_text(a.push(c) + b, c) == split_text(a, c) + split_text(b, c),
    decreases b.len(),
{
    let whole = a.push(c) + b;
    lemma_split_pieces(a, c);
    lemma_split_pieces(b, c);
    if b.len() == 0 {
        assert(whole =~= a.push(c));
        assert(whole.drop_last() =~= a);
        assert(split_text(b, c) =~= seq![Seq::<char>::empty()]);
        assert(split_text(a, c).push(Seq::empty()) =~= split_text(a, c) + split_text(b, c));
    } else {
        lemma_split_both(a, c, b.drop_last());
        lemma_split_pieces(b.drop_last(), c);
        assert(whole.drop_last() =~= a.push(c) + b.drop_last());
        let head = split_text(a, c);
        let before = split_text(b.drop_last(), c);
        assert((head + before).last() == before.last());
        assert((head + before).drop_last() =~= head + before.drop_last());
        if b.last() == c {
            assert((head + before).push(Seq::empty()) =~= head + before.push(Seq::empty()));
        } else {
            let piece = before.last().push(b.last());
            assert((head + before.drop_last()).push(piece) =~= head + before.drop_last().push(
                piece,
            ));
        }
    }
}

/// The names on a path that is put together are those of its halves.
pub proof fn names_of_both_halves(a: Text, b: Text)
    ensures
        segments(a.push('/') + b) == segments(a) + segments(b),
{
    let pred = |piece: Text| names_something(piece);
    lemma_split_both(a, '/', b);
    Seq::filter_distributes_over_add(split_text(a, '/'), split_text(b, '/'), pred);
}

/// A path seen from a directory is itself if it is absolute, and else lies beneath
/// the directory: the names on it are those of the directory and then its own.
pub proof fn relative_paths_lie_beneath_their_base(base: Text, path: Text)
    requires
        base.len() > 0,
    ensures
        absolute(path) ==> path_joined(base, path) == path,
        !absolute(path) ==> {
            let whole = path_joined(base, path);
            &&& base.is_prefix_of(whole)
            &&& path.is_suffix_of(whole)
            &&& segments(whole) == segments(base) + segments(path)
            &&& path_parts(whole) == path_parts(base) + segments(path)
            &&& within(whole, base)
        },
{
    if !absolute(path) {
        reveal_strlit("/");
        assert("/"@ =~= seq!['/']);
        let whole = path_joined(base, path);
        assert(whole.subrange(0, base.len() as int) =~= base);
        assert(whole.subrange(whole.len() - path.len(), whole.len() as int) =~= path);
        if base.last() == '/' {
            let stem = base.drop_last();
            assert(whole =~= stem.push('/') + path);
            names_of_both_halves(stem, path);
            assert(base =~= stem.push('/') + Seq::<char>::empty());
            names_of_both_halves(stem, Seq::empty());
            lemma_no_names();
            assert(segments(stem) + Seq::<Text>::empty() =~= segments(stem));
            lemma_split_both(stem, '/', path);
            lemma_split_both(stem, '/', Seq::empty());
            lemma_split_pieces(stem, '/');
        } else {
            assert(whole =~= base.push('/') + path);
            names_of_both_halves(base, path);
            lemma_split_both(base, '/', path);
            lemma_split_pieces(base, '/');
        }
        assert(path_head(whole) == path_head(base));
        let parts = path_parts(base);
        assert(path_parts(whole) =~= parts + segments(path));
        assert(path_parts(whole).subrange(0, parts.len() as int) =~= parts);
    }
}

proof fn lemma_no_names()
    ensures
        segments(Seq::<char>::empty()) == Seq::<Text>::empty(),
{
    let pieces = split_text(Seq::<char>::empty(), '/');
    assert(pieces =~= seq![Seq::<char>::empty()]);
    let pred = |piece: Text| names_something(piece);
    reveal(Seq::filter);
    assert(pieces.drop_last() =~= Seq::<Text>::empty());
    assert(pieces.drop_last().filter(pred) =~= Seq::<Text>::empty());
    assert(pieces.filter(pred) =~= Seq::<Text>::empty());
}

/// A text without slashes that is neither empty nor `.` is one name.
pub proof fn plain_names_are_names(name: Text)
    requires
        !name.contains('/'),
        name.len() > 0,
        name != "."@,
    ensures
        segments(name) == seq![name],
{
    lemma_unsplit(name, '/');
    let pred = |piece: Text| names_something(piece);
    let pieces = seq![name];
    reveal(Seq::filter);
    assert(pieces.drop_last() =~= Seq::<Text>::empty());
    assert(pieces.drop_last().filter(pred) =~= Seq::<Text>::empty());
    assert(pieces.last() == name);
    assert(pieces.filter(pred) =~= Seq::<Text>::empty().push(name));
    assert(seq![name] =~= Seq::<Text>::empty().push(name));
}

/// The name of a file is what stands behind the last slash.
pub proof fn names_stand_behind_the_last_slash(dir: Text, name: Text)
    requires
        !name.contains('/'),
        name.len() > 0,
        name != "."@,
        name != ".."@,
    ensures
        name_of(name) == Some(name),
        name_of(dir.push('/') + name) == Some(name),
        extension_of(dir.push('/') + name) == extension_of_name(name),
{
    plain_names_are_names(name);
    names_of_both_halves(dir, name);
    assert((segments(dir) + seq![name]).last() == name);
}

/// The extension of a file name is what stands behind its last dot. A name without
/// a dot, or with none but in front, has none.
pub proof fn extensions_stand_behind_the_last_dot(stem: Text, ext: Text)
    requires
        !ext.contains('.'),
        stem.len() > 0,
    ensures
        extension_of_name(stem.push('.') + ext) == Some(ext),
        !stem.contains('.') ==> extension_of_name(stem) is None,
        extension_of_name(seq!['.'] + ext) is None,
{
    lemma_split_both(stem, '.', ext);
    lemma_unsplit(ext, '.');
    lemma_split_pieces(stem, '.');
    let pieces = split_text(stem, '.') + seq![ext];
    assert(pieces.last() == ext);
    if pieces.len() == 2 && pieces[0].len() == 0 {
        lemma_one_piece(stem, '.');
    }
    if !stem.contains('.') {
        lemma_unsplit(stem, '.');
    }
    let none = Seq::<char>::empty();
    lemma_split_both(none, '.', ext);
    assert(none.push('.') + ext =~= seq!['.'] + ext);
    assert(split_text(none, '.') =~= seq![none]);
    assert((seq![none] + seq![ext]).len() == 2);
    assert((seq![none] + seq![ext])[0] == none);
}

/// A text with one piece is that piece.
proof fn lemma_one_piece(s: Text, c: char)
    requires
        split_text(s, c).len() == 1,
    ensures
        split_text(s, c)[0] == s,
{
    crate::text::split_then_join(s, c);
}

/// A directory holds itself, and what lies beneath what it holds.
pub proof fn directories_hold_what_lies_beneath(a: Text, b: Text, c: Text)
    ensures
        within(a, a),
        within(a, b) && within(b, c) ==> within(a, c),
{
    let x = path_parts(a);
    assert(x.subrange(0, x.len() as int) =~= x);
    if within(a, b) && within(b, c) {
        let y = path_parts(b);
        let z = path_parts(c);
        assert(x.subrange(0, z.len() as int) =~= x.subrange(0, y.len() as int).subrange(
            0,
            z.len() as int,
        ));
    }
}

/// A path is absolute exactly if it begins with a slash.
pub proof fn absolute_paths_begin_with_a_slash(path: Text)
    ensures
        absolute(path) <==> "/"@.is_prefix_of(path),
{
    reveal_strlit("/");
    if path.len() > 0 {
        assert(path.subrange(0, 1)[0] == path[0]);
        if path[0] == '/' {
            assert("/"@ =~= path.subrange(0, 1));
        }
    }
}

} // verus!

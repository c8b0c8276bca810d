//! What holds of the program that every skill gets, and of every script that is
//! spoken.
use vstd::prelude::*;

use crate::podcast::{
    inline_script, on_one_line, regex_spans, script_line, script_lines, script_of, spans_fit, spoken,
};
use crate::skill_binary::{
    archive_contents, archive_listing, executable_file, first_executable, first_offer, first_real,
    first_try, is_program, lazy_launcher, line_name, names_in, next_try, none_executable, offers,
    program_of, real_file, sha256_hex, system_key, BinaryStep, EntryView, RegistryEntry,
};
use crate::text::{contains_text, lowercase, split_text, texts, trimmed, Text};
use crate::text_laws::joined_texts_hold_their_parts;

verus! {

// ---------------------------------------------------------------------------
// Programs

/// The program of an archive is a file and no resource fork. It may be executed, and
/// no file before it may; or no file may, and it is the first.
pub proof fn programs_are_real_files(entries: Seq<EntryView>, n: int)
    requires
        is_program(entries, n),
    ensures
        0 <= n < entries.len(),
        entries[n].is_file,
        entries[n].name matches Some(name) ==> !"._"@.is_prefix_of(name),
        forall|j: int|
            0 <= j < n ==> !((#[trigger] entries[j]).is_file && !(
            entries[j].name matches Some(name) && "._"@.is_prefix_of(name)) && (
            entries[j].mode matches Some(mode) && mode & 0o111u32 != 0)),
        !(entries[n].mode matches Some(mode) && mode & 0o111u32 != 0) ==> forall|j: int|
            0 <= j < entries.len() ==> !((#[trigger] entries[j]).is_file && !(
            entries[j].name matches Some(name) && "._"@.is_prefix_of(name)) && (
            entries[j].mode matches Some(mode) && mode & 0o111u32 != 0)),
        !(entries[n].mode matches Some(mode) && mode & 0o111u32 != 0) ==> forall|j: int|
            0 <= j < n ==> !((#[trigger] entries[j]).is_file && !(
            entries[j].name matches Some(name) && "._"@.is_prefix_of(name))),
{
    assert forall|j: int|
        0 <= j < entries.len() && (first_executable(entries, n) && j < n || none_executable(
            entries,
        )) implies !((#[trigger] entries[j]).is_file && !(entries[j].name matches Some(name)
        && "._"@.is_prefix_of(name)) && (entries[j].mode matches Some(mode) && mode & 0o111u32
        != 0)) by {
        assert(!executable_file(entries[j]));
    }
    assert forall|j: int| first_real(entries, n) && 0 <= j < n implies !((
    #[trigger] entries[j]).is_file && !(entries[j].name matches Some(name)
        && "._"@.is_prefix_of(name))) by {
        assert(!real_file(entries[j]));
    }
    assert(real_file(entries[n]));
}

/// An archive that holds a real file has a program.
pub proof fn archives_with_files_have_a_program(entries: Seq<EntryView>, i: int)
    requires
        0 <= i < entries.len(),
        entries[i].is_file,
        entries[i].name matches Some(name) ==> !"._"@.is_prefix_of(name),
    ensures
        exists|n: int| #[trigger] is_program(entries, n),
{
    assert(real_file(entries[i]));
    if none_executable(entries) {
        let n = lemma_first_real(entries, i);
        assert(is_program(entries, n));
    } else {
        let k = choose|k: int| 0 <= k < entries.len() && executable_file(#[trigger] entries[k]);
        let n = lemma_first_executable(entries, k);
        assert(is_program(entries, n));
    }
}

proof fn lemma_first_real(entries: Seq<EntryView>, i: int) -> (n: int)
    requires
        0 <= i < entries.len(),
        real_file(entries[i]),
    ensures
        first_real(entries, n),
    decreases i,
{
    if forall|j: int| 0 <= j < i ==> !real_file(#[trigger] entries[j]) {
        i
    } else {
        let j = choose|j: int| 0 <= j < i && real_file(#[trigger] entries[j]);
        lemma_first_real(entries, j)
    }
}

proof fn lemma_first_executable(entries: Seq<EntryView>, i: int) -> (n: int)
    requires
        0 <= i < entries.len(),
        executable_file(entries[i]),
    ensures
        first_executable(entries, n),
    decreases i,
{
    if forall|j: int| 0 <= j < i ==> !executable_file(#[trigger] entries[j]) {
        i
    } else {
        let j = choose|j: int| 0 <= j < i && executable_file(#[trigger] entries[j]);
        lemma_first_executable(entries, j)
    }
}

/// A download whose digest is not the expected one is not written. One with the
/// expected digest, or with none expected, is written as it is, unless its address
/// is that of a compressed archive; of an archive its program is written.
pub proof fn downloads_are_written_if_they_fit(
    url: Text,
    bytes: Seq<u8>,
    sha256: Option<Text>,
    n: int,
)
    ensures
        ({
            let fits = sha256 is None || sha256_hex(bytes) == lowercase(sha256->0);
            let packed = ".tar.gz"@.is_suffix_of(url) || ".tgz"@.is_suffix_of(url);
            let written = program_of(url, bytes, sha256);
            &&& !fits ==> (written matches Ok(nothing) && nothing is None)
            &&& fits && !packed ==> (written matches Ok(Some(program)) && program == bytes)
            &&& fits && packed && is_program(archive_listing(bytes).0, n) ==> {
                &&& archive_contents(bytes, n) matches Ok(contents) ==> (written matches Ok(
                    Some(program),
                ) && program == contents)
                &&& archive_contents(bytes, n) is Err ==> written is Err
            }
            &&& fits && packed && (forall|k: int|
                !#[trigger] is_program(archive_listing(bytes).0, k)) ==> (written is Err
                <==> archive_listing(bytes).1 is Some)
        }),
{
    let entries = archive_listing(bytes).0;
    if is_program(entries, n) {
        let m = choose|m: int| is_program(entries, m);
        lemma_same_program(entries, m, n);
    }
}

proof fn lemma_same_program(entries: Seq<EntryView>, m: int, n: int)
    requires
        is_program(entries, m),
        is_program(entries, n),
    ensures
        m == n,
{
    let first = if m < n {
        m
    } else {
        n
    };
    assert(executable_file(entries[first]) || real_file(entries[first]));
}

/// The search for a program begins only where a skill has none and could have one:
/// with what its manifest names, or else with the registry.
pub proof fn programs_are_searched_where_missing(
    has_manifest: bool,
    has_cargo: bool,
    has_program: bool,
)
    ensures
        ({
            let step = first_try(has_manifest, has_cargo, has_program);
            &&& step == BinaryStep::Done <==> has_program || (!has_manifest && !has_cargo)
            &&& !has_program && has_manifest ==> step == BinaryStep::Manifest
            &&& !has_program && !has_manifest && has_cargo ==> step == BinaryStep::Registry
        }),
{
}

/// After the manifest comes the registry where the skill can be built, else its
/// scripts; after the scripts the registry; after the registry the build, if it can
/// be built; and a launcher at the last.
pub proof fn the_search_goes_on_in_order(has_cargo: bool, worked: bool)
    ensures
        next_try(BinaryStep::Manifest, has_cargo, true) == BinaryStep::Done,
        next_try(BinaryStep::Scripts, has_cargo, true) == BinaryStep::Done,
        next_try(BinaryStep::Registry, has_cargo, true) == BinaryStep::Done,
        next_try(BinaryStep::Manifest, true, false) == BinaryStep::Registry,
        next_try(BinaryStep::Manifest, false, false) == BinaryStep::Scripts,
        next_try(BinaryStep::Scripts, has_cargo, false) == BinaryStep::Registry,
        next_try(BinaryStep::Registry, true, false) == BinaryStep::Build,
        next_try(BinaryStep::Registry, false, false) == BinaryStep::Launcher,
        next_try(BinaryStep::Build, has_cargo, worked) == BinaryStep::Launcher,
        next_try(BinaryStep::Launcher, has_cargo, worked) == BinaryStep::Done,
        next_try(BinaryStep::Done, has_cargo, worked) == BinaryStep::Done,
{
}

/// A program is published for a system under its name and its architecture; only the
/// Mac goes by another name.
pub proof fn systems_have_their_keys(os: Text, arch: Text)
    ensures
        arch.is_suffix_of(system_key(os, arch)),
        os != "macos"@ ==> os.is_prefix_of(system_key(os, arch)),
        os == "macos"@ ==> "darwin-"@.is_prefix_of(system_key(os, arch)),
        contains_text(system_key(os, arch), "-"@),
{
    let key = system_key(os, arch);
    let name = if os == "macos"@ {
        "darwin"@
    } else {
        os
    };
    assert(key == name + "-"@ + arch);
    crate::text_laws::lemma_held(name, "-"@, arch);
    assert(key.subrange(key.len() - arch.len(), key.len() as int) =~= arch);
    assert(key.subrange(0, name.len() as int) =~= name);
    if os == "macos"@ {
        reveal_strlit("darwin");
        reveal_strlit("-");
        reveal_strlit("darwin-");
        assert(key.subrange(0, "darwin-"@.len() as int) =~= "darwin-"@);
    }
}

/// A package offers a skill exactly if it has its name or lists it; the first that
/// does counts.
pub proof fn the_first_package_that_offers_counts(
    entries: Seq<RegistryEntry>,
    package: Text,
    i: int,
    j: int,
)
    ensures
        first_offer(entries, package, i) ==> 0 <= i < entries.len() && (entries[i].name@ == package
            || texts(entries[i].skills@).contains(package)),
        first_offer(entries, package, i) && 0 <= j < entries.len() && (entries[j].name@ == package
            || texts(entries[j].skills@).contains(package)) ==> i <= j,
{
    if first_offer(entries, package, i) && 0 <= j < i {
        assert(!offers(entries[j], package));
    }
}

/// A launcher is told by the three things that it always says.
pub proof fn launchers_are_told_by_their_text(text: Text)
    ensures
        lazy_launcher(text) <==> contains_text(
            text,
            "Skill binary is missing and cargo is not installed"@,
        ) && contains_text(text, "cargo build --release"@) && contains_text(
            text,
            "target/release/"@,
        ),
{
}

/// The names that a package description gives are those of its lines, in order.
pub proof fn names_are_read_line_by_line(list: Seq<Text>, line: Text, name: Text)
    ensures
        line_name(line) matches Some(found) ==> names_in(list.push(line)) == names_in(list).push(
            found,
        ),
        line_name(line) is None ==> names_in(list.push(line)) == names_in(list),
        names_in(Seq::<Text>::empty()).len() == 0,
        names_in(list).contains(name) <==> exists|i: int|
            0 <= i < list.len() && line_name(#[trigger] list[i]) == Some(name),
    decreases list.len(),
{
    assert(list.push(line).drop_last() =~= list);
    if list.len() > 0 {
        let rest = list.drop_last();
        let n = list.len() - 1;
        names_are_read_line_by_line(rest, line, name);
        assert(forall|i: int| 0 <= i < n ==> #[trigger] rest[i] == list[i]);
        let before = names_in(rest);
        let all = names_in(list);
        if all.contains(name) {
            let k = all.index_of(name);
            if k < before.len() {
                assert(before[k] == name);
                assert(before.contains(name));
                let i = choose|i: int|
                    0 <= i < rest.len() && line_name(#[trigger] rest[i]) == Some(name);
                assert(list[i] == rest[i]);
            } else {
                assert(line_name(list[n]) == Some(name));
            }
        }
        if exists|i: int| 0 <= i < list.len() && line_name(#[trigger] list[i]) == Some(name) {
            let i = choose|i: int|
                0 <= i < list.len() && line_name(#[trigger] list[i]) == Some(name);
            if i < n {
                assert(rest[i] == list[i]);
                assert(before.contains(name));
                assert(all[before.index_of(name)] == name);
            } else {
                assert(all[before.len() as int] == name);
            }
        }
    }
}

/// A line gives a name only if it begins with that word and has an equals sign.
pub proof fn lines_name_with_an_equals_sign(line: Text)
    ensures
        line_name(line) is Some <==> "name"@.is_prefix_of(trimmed(line)) && trimmed(line).contains(
            '=',
        ),
{
    let s = trimmed(line);
    lemma_split_count(s);
}

proof fn lemma_split_count(s: Text)
    ensures
        split_text(s, '=').len() > 1 <==> s.contains('='),
        split_text(s, '=').len() >= 1,
{
    if s.contains('=') {
        let k = s.index_of('=');
        let head = s.take(k);
        let rest = s.skip(k + 1);
        assert(s =~= head.push('=') + rest);
        crate::text_laws::lemma_split_at_least_two(head, '=', rest);
    } else {
        crate::text_laws::lemma_unsplit(s, '=');
    }
}

// ---------------------------------------------------------------------------
// Scripts

/// A line break is spoken as a blank, and everything else as it is written.
pub proof fn lines_are_spoken_as_one(s: Text, i: int)
    requires
        0 <= i < s.len(),
    ensures
        on_one_line(s).len() == s.len(),
        s[i] == '\n' ==> on_one_line(s)[i] == ' ',
        s[i] != '\n' ==> on_one_line(s)[i] == s[i],
        !on_one_line(s).contains('\n'),
{
    if on_one_line(s).contains('\n') {
        let k = on_one_line(s).index_of('\n');
        assert(on_one_line(s)[k] == '\n');
    }
}

/// What is said after a header lies between it and the next, or the end of the text.
/// The line of the script begins with the header and ends with what is said.
pub proof fn script_lines_hold_what_is_said(text: Text, spans: Seq<(int, int)>, i: int)
    requires
        spans_fit(spans, text.len() as int),
        0 <= i < spans.len(),
    ensures
        i + 1 < spans.len() ==> spoken(text, spans, i) == trimmed(
            text.subrange(spans[i].1, spans[i + 1].0),
        ),
        i + 1 == spans.len() ==> spoken(text, spans, i) == trimmed(text.skip(spans[i].1)),
        trimmed(text.subrange(spans[i].0, spans[i].1)).is_prefix_of(script_line(text, spans, i)),
        trimmed(on_one_line(spoken(text, spans, i))).is_suffix_of(script_line(text, spans, i)),
{
    let header = trimmed(text.subrange(spans[i].0, spans[i].1));
    let said = trimmed(on_one_line(spoken(text, spans, i)));
    crate::text::lemma_three_parts(header, " "@, said);
    assert(text.subrange(spans[i].1, text.len() as int) =~= text.skip(spans[i].1));
}

/// A text holds a script exactly if something is said after two of its headers at
/// least; the script then holds the line of every header after which something is
/// said.
pub proof fn scripts_hold_every_line(text: Text, spans: Seq<(int, int)>, i: int, j: int)
    requires
        0 <= i < j < spans.len(),
        spoken(text, spans, i).len() > 0,
        spoken(text, spans, j).len() > 0,
    ensures
        script_of(text, spans) matches Some(script) && contains_text(
            script,
            script_line(text, spans, i),
        ) && contains_text(script, script_line(text, spans, j)),
{
    let lines = script_lines(text, spans, spans.len() as int);
    let (a, b) = lemma_two_lines(text, spans, spans.len() as int, i, j);
    joined_texts_hold_their_parts(lines, "\n"@, a);
    joined_texts_hold_their_parts(lines, "\n"@, b);
}

proof fn lemma_two_lines(text: Text, spans: Seq<(int, int)>, n: int, i: int, j: int) -> (places: (
    int,
    int,
))
    requires
        0 <= i < j < n,
        spoken(text, spans, i).len() > 0,
        spoken(text, spans, j).len() > 0,
    ensures
        0 <= places.0 < places.1 < script_lines(text, spans, n).len(),
        script_lines(text, spans, n)[places.0] == script_line(text, spans, i),
        script_lines(text, spans, n)[places.1] == script_line(text, spans, j),
    decreases n,
{
    if j == n - 1 {
        let a = lemma_one_line(text, spans, n - 1, i);
        (a, script_lines(text, spans, n - 1).len() as int)
    } else {
        lemma_two_lines(text, spans, n - 1, i, j)
    }
}

proof fn lemma_one_line(text: Text, spans: Seq<(int, int)>, n: int, i: int) -> (place: int)
    requires
        0 <= i < n,
        spoken(text, spans, i).len() > 0,
    ensures
        0 <= place < script_lines(text, spans, n).len(),
        script_lines(text, spans, n)[place] == script_line(text, spans, i),
    decreases n,
{
    if i == n - 1 {
        script_lines(text, spans, n - 1).len() as int
    } else {
        lemma_one_line(text, spans, n - 1, i)
    }
}

/// Without two headers after which something is said there is no script.
pub proof fn one_speaker_makes_no_script(text: Text, spans: Seq<(int, int)>, only: int)
    requires
        forall|k: int|
            0 <= k < spans.len() && k != only ==> #[trigger] spoken(text, spans, k).len() == 0,
    ensures
        script_of(text, spans) is None,
        regex_spans(crate::podcast::SCRIPT_HEADER@, text) == Some(spans) ==> inline_script(
            text,
        ) is None,
{
    lemma_few_lines(text, spans, spans.len() as int, only);
}

proof fn lemma_few_lines(text: Text, spans: Seq<(int, int)>, n: int, only: int)
    requires
        n <= spans.len(),
        forall|k: int|
            0 <= k < spans.len() && k != only ==> #[trigger] spoken(text, spans, k).len() == 0,
    ensures
        script_lines(text, spans, n).len() <= 1,
        n <= only ==> script_lines(text, spans, n).len() == 0,
    decreases n,
{
    if n > 0 {
        lemma_few_lines(text, spans, n - 1, only);
        assert(n - 1 != only ==> spoken(text, spans, n - 1).len() == 0);
    }
}

} // verus!

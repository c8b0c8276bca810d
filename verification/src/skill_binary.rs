//! The program of a skill: where it comes from, and what is written of a download.
use vstd::prelude::*;

use crate::text::{
    contains, contains_text, copy_opt, ends_with, in_list, lemma_texts_push, lines, lowercase,
    opt_text, same, split, split_text, starts_with, text_lines, texts, to_lowercase, trim,
    trim_class, trimmed, trimmed_both, CharClass, Text,
};

verus! {

// ---------------------------------------------------------------------------
// What is written of a download

/// The SHA-256 digest of some bytes, in lower-case hexadecimal digits.
pub uninterp spec fn sha256_hex(bytes: Seq<u8>) -> Seq<char>;

/// The digest that `sha2::Sha256::digest` computes, written with `{:x}`.
#[verifier::external_body]
fn digest_of(bytes: &[u8]) -> (r: String)
    ensures
        r@ == sha256_hex(bytes@),
{
    format!("{:x}", <sha2::Sha256 as sha2::Digest>::digest(bytes))
}

/// One entry of an archive.
#[derive(Debug)]
pub struct ArchiveEntry {
    pub is_file: bool,
    /// The last part of its path, if it has one.
    pub name: Option<String>,
    /// Its permission bits, if they can be read.
    pub mode: Option<u32>,
}

/// The entries of an archive, up to the end or to an error.
#[derive(Debug)]
pub struct ArchiveListing {
    pub entries: Vec<ArchiveEntry>,
    pub error: Option<String>,
}

#[verifier::ext_equal]
pub struct EntryView {
    pub is_file: bool,
    pub name: Option<Text>,
    pub mode: Option<u32>,
}

pub open spec fn entry_views(entries: Seq<ArchiveEntry>) -> Seq<EntryView> {
    Seq::new(
        entries.len(),
        |i: int|
            EntryView {
                is_file: entries[i].is_file,
                name: opt_text(entries[i].name),
                mode: entries[i].mode,
            },
    )
}

/// The entries of a compressed archive, and the error at which they end.
pub uninterp spec fn archive_listing(bytes: Seq<u8>) -> (Seq<EntryView>, Option<Seq<char>>);

/// The entries that `tar::Archive::entries` finds in what
/// `flate2::read::GzDecoder` unpacks, each with the type and the mode of its
/// header and the name in its path, without reading their contents. The formats
/// themselves are left unsaid.
#[verifier::external_body]
fn list_archive(bytes: &[u8]) -> (r: ArchiveListing)
    ensures
        (entry_views(r.entries@), opt_text(r.error)) == archive_listing(bytes@),
{
    let mut archive = tar::Archive::new(flate2::read::GzDecoder::new(bytes));
    let mut listing = ArchiveListing { entries: Vec::new(), error: None };
    match archive.entries() {
        Err(e) => listing.error = Some(e.to_string()),
        Ok(entries) => for entry in entries {
            match entry {
                Err(e) => listing.error = Some(e.to_string()),
                Ok(e) => listing.entries.push(ArchiveEntry {
                    is_file: e.header().entry_type().is_file(), mode: e.header().mode().ok(),
                    name: e.path().ok().and_then(|p| p.file_name().map(|n| n.to_string_lossy().into_owned())),
                }),
            }
        },
    }
    listing
}

/// The contents of an entry of a compressed archive, or why they cannot be read.
pub uninterp spec fn archive_contents(bytes: Seq<u8>, n: int) -> Result<Seq<u8>, Seq<char>>;

/// The contents of the entry at a position, as `read_to_end` gives them for
/// that entry of `tar::Archive::entries`.
#[verifier::external_body]
fn read_entry(bytes: &[u8], n: usize) -> (r: Result<Vec<u8>, String>)
    requires
        n < archive_listing(bytes@).0.len(),
    ensures
        match r {
            Ok(contents) => archive_contents(bytes@, n as int) == Ok::<Seq<u8>, Seq<char>>(
                contents@,
            ),
            Err(reason) => archive_contents(bytes@, n as int) == Err::<Seq<u8>, Seq<char>>(
                reason@,
            ),
        },
{
    let mut archive = tar::Archive::new(flate2::read::GzDecoder::new(bytes));
    let mut entries = archive.entries().map_err(|e| e.to_string())?;
    let mut contents = Vec::new();
    match entries.nth(n) {
        Some(Ok(mut e)) => std::io::Read::read_to_end(&mut e, &mut contents).map_err(|e| e.to_string())?,
        Some(Err(e)) => return Err(e.to_string()),
        None => 0,
    };
    Ok(contents)
}

/// An entry that can be the program: a file that is no resource fork.
pub open spec fn real_file(entry: EntryView) -> bool {
    entry.is_file && !(entry.name is Some && "._"@.is_prefix_of(entry.name->0))
}

/// A real file that somebody may execute.
pub open spec fn executable_file(entry: EntryView) -> bool {
    real_file(entry) && entry.mode is Some && entry.mode->0 & 0o111u32 != 0
}

/// `n` is the first entry that can be the program.
pub open spec fn first_real(entries: Seq<EntryView>, n: int) -> bool {
    &&& 0 <= n < entries.len()
    &&& real_file(entries[n])
    &&& forall|j: int| 0 <= j < n ==> !real_file(#[trigger] entries[j])
}

/// `n` is the first real file that may be executed.
pub open spec fn first_executable(entries: Seq<EntryView>, n: int) -> bool {
    &&& 0 <= n < entries.len()
    &&& executable_file(entries[n])
    &&& forall|j: int| 0 <= j < n ==> !executable_file(#[trigger] entries[j])
}

/// No entry may be executed.
pub open spec fn none_executable(entries: Seq<EntryView>) -> bool {
    forall|j: int| 0 <= j < entries.len() ==> !executable_file(#[trigger] entries[j])
}

/// `n` is the program: the first real file that may be executed, or the first
/// real file where none may.
pub open spec fn is_program(entries: Seq<EntryView>, n: int) -> bool {
    first_executable(entries, n) || none_executable(entries) && first_real(entries, n)
}

/// There is at most one program.
proof fn lemma_one_program(entries: Seq<EntryView>, m: int, n: int)
    requires
        is_program(entries, m),
        is_program(entries, n),
    ensures
        m == n,
{
    let first = if m < n {
        m
    } else {
        n
    };
    assert(executable_file(entries[first]) || real_file(entries[first]));
}

/// The position of the program of an archive.
pub fn program_entry(entries: &[ArchiveEntry]) -> (r: Option<usize>)
    ensures
        match r {
            Some(n) => is_program(entry_views(entries@), n as int),
            None => forall|j: int|
                0 <= j < entries@.len() ==> !real_file(#[trigger] entry_views(entries@)[j]),
        },
{
    let ghost all = entry_views(entries@);
    let mut found: Option<usize> = None;
    let mut i: usize = 0;
    while i < entries.len()
        invariant
            i <= entries.len(),
            all == entry_views(entries@),
            forall|j: int| 0 <= j < i ==> !executable_file(#[trigger] all[j]),
            match found {
                Some(n) => n < i && first_real(all, n as int),
                None => forall|j: int| 0 <= j < i ==> !real_file(#[trigger] all[j]),
            },
        decreases entries.len() - i,
    {
        let fork = match &entries[i].name {
            Some(name) => starts_with(name.as_str(), "._"),
            None => false,
        };
        let may_run = match entries[i].mode {
            Some(mode) => mode & 0o111u32 != 0,
            None => false,
        };
        proof {
            assert(real_file(all[i as int]) == (entries@[i as int].is_file && !fork));
            assert(executable_file(all[i as int]) == (real_file(all[i as int]) && may_run));
        }
        if entries[i].is_file && !fork {
            if may_run {
                return Some(i);
            }
            if found.is_none() {
                found = Some(i);
            }
        }
        i += 1;
    }
    found
}

/// The address is that of a compressed archive.
pub open spec fn archive_address(url: Text) -> bool {
    ".tar.gz"@.is_suffix_of(url) || ".tgz"@.is_suffix_of(url)
}

/// The digest is the expected one, if one is expected.
pub open spec fn digest_fits(expected: Option<Text>, actual: Text) -> bool {
    expected is Some ==> actual == lowercase(expected->0)
}

/// What is written of an archive: its program. Nothing if it holds no real file,
/// and an error if the archive breaks off before one.
pub open spec fn archive_program(
    entries: Seq<EntryView>,
    error: Option<Text>,
    contents: spec_fn(int) -> Result<Seq<u8>, Text>,
) -> Result<Option<Seq<u8>>, Text> {
    if exists|n: int| is_program(entries, n) {
        match contents(choose|n: int| is_program(entries, n)) {
            Ok(bytes) => Ok(Some(bytes)),
            Err(reason) => Err(reason),
        }
    } else {
        match error {
            Some(reason) => Err(reason),
            None => Ok(None),
        }
    }
}

/// What is written of a download: nothing if the digest is not the expected one,
/// the program of an archive, or the download itself.
pub open spec fn program_of(url: Text, bytes: Seq<u8>, sha256: Option<Text>) -> Result<
    Option<Seq<u8>>,
    Text,
> {
    if !digest_fits(sha256, sha256_hex(bytes)) {
        Ok(None)
    } else if archive_address(url) {
        archive_program(
            archive_listing(bytes).0,
            archive_listing(bytes).1,
            |n: int| archive_contents(bytes, n),
        )
    } else {
        Ok(Some(bytes))
    }
}

/// Whether a digest is the expected one.
pub fn digest_matches(expected: &Option<String>, actual: &str) -> (r: bool)
    ensures
        r == digest_fits(opt_text(*expected), actual@),
{
    match expected {
        Some(text) => {
            let wanted = to_lowercase(text.as_str());
            same(actual, wanted.as_str())
        },
        None => true,
    }
}

fn copy_bytes(bytes: &[u8]) -> (out: Vec<u8>)
    ensures
        out@ == bytes@,
{
    let mut out: Vec<u8> = Vec::new();
    let mut i: usize = 0;
    while i < bytes.len()
        invariant
            i <= bytes.len(),
            out@ =~= bytes@.take(i as int),
        decreases bytes.len() - i,
    {
        out.push(bytes[i]);
        i += 1;
    }
    out
}

/// What is written as the program of a skill of a download from an address. An
/// expected digest must be that of the whole download.
pub fn install_bytes_into_dir(url: &str, bytes: &[u8], sha256: &Option<String>) -> (r: Result<
    Option<Vec<u8>>,
    String,
>)
    ensures
        match r {
            Ok(Some(program)) => program_of(url@, bytes@, opt_text(*sha256)) == Ok::<
                Option<Seq<u8>>,
                Text,
            >(Some(program@)),
            Ok(None) => program_of(url@, bytes@, opt_text(*sha256)) == Ok::<Option<Seq<u8>>, Text>(
                None,
            ),
            Err(reason) => program_of(url@, bytes@, opt_text(*sha256)) == Err::<
                Option<Seq<u8>>,
                Text,
            >(reason@),
        },
{
    let actual = digest_of(bytes);
    if !digest_matches(sha256, actual.as_str()) {
        return Ok(None);
    }
    if !(ends_with(url, ".tar.gz") || ends_with(url, ".tgz")) {
        return Ok(Some(copy_bytes(bytes)));
    }
    let listing = list_archive(bytes);
    let ghost entries = entry_views(listing.entries@);
    match program_entry(listing.entries.as_slice()) {
        Some(n) => {
            proof {
                lemma_one_program(entries, n as int, choose|k: int| is_program(entries, k));
            }
            match read_entry(bytes, n) {
                Ok(contents) => Ok(Some(contents)),
                Err(reason) => Err(reason),
            }
        },
        None => {
            proof {
                assert forall|k: int| !is_program(entries, k) by {
                    if 0 <= k < entries.len() {
                        assert(!real_file(entries[k]));
                    }
                }
            }
            match listing.error {
                Some(reason) => Err(reason),
                None => Ok(None),
            }
        },
    }
}

/// A file of an archive that may not be executed is never written as the program
/// while there is a real file that may.
pub proof fn executables_come_before_other_files(entries: Seq<EntryView>, n: int, m: int)
    requires
        is_program(entries, n),
        0 <= m < entries.len(),
        executable_file(entries[m]),
    ensures
        executable_file(entries[n]),
        n <= m,
{
}

/// A download whose digest is not the expected one is never written.
pub proof fn wrong_digests_write_nothing(url: Text, bytes: Seq<u8>, sha256: Text)
    requires
        sha256_hex(bytes) != lowercase(sha256),
    ensures
        program_of(url, bytes, Some(sha256)) == Ok::<Option<Seq<u8>>, Text>(None),
{
}

// ---------------------------------------------------------------------------
// Where the program comes from

/// The next thing to try to get the program of a skill.
#[derive(Debug, Clone, Copy, PartialEq, Eq, Structural)]
pub enum BinaryStep {
    /// Download what the manifest names.
    Manifest,
    /// Make a program of the skill's scripts.
    Scripts,
    /// Download what the registry names.
    Registry,
    /// Build the skill.
    Build,
    /// Make a program that builds the skill when it is first run, or whatever
    /// else can be made.
    Launcher,
    Done,
}

/// What is tried first.
pub open spec fn first_try(has_manifest: bool, has_cargo: bool, has_program: bool) -> BinaryStep {
    if !has_manifest && !has_cargo || has_program {
        BinaryStep::Done
    } else if has_manifest {
        BinaryStep::Manifest
    } else {
        BinaryStep::Registry
    }
}

/// What is tried after a step, given whether it gave a program.
pub open spec fn next_try(step: BinaryStep, has_cargo: bool, worked: bool) -> BinaryStep {
    match step {
        BinaryStep::Manifest => if worked {
            BinaryStep::Done
        } else if has_cargo {
            BinaryStep::Registry
        } else {
            BinaryStep::Scripts
        },
        BinaryStep::Scripts => if worked {
            BinaryStep::Done
        } else {
            BinaryStep::Registry
        },
        BinaryStep::Registry => if worked {
            BinaryStep::Done
        } else if has_cargo {
            BinaryStep::Build
        } else {
            BinaryStep::Launcher
        },
        BinaryStep::Build => BinaryStep::Launcher,
        BinaryStep::Launcher => BinaryStep::Done,
        BinaryStep::Done => BinaryStep::Done,
    }
}

/// What is tried first to get the program of a skill.
pub fn maybe_install_binary(has_manifest: bool, has_cargo: bool, has_program: bool) -> (r: BinaryStep)
    ensures
        r == first_try(has_manifest, has_cargo, has_program),
{
    if !has_manifest && !has_cargo || has_program {
        BinaryStep::Done
    } else if has_manifest {
        BinaryStep::Manifest
    } else {
        BinaryStep::Registry
    }
}

/// What is tried after a step.
pub fn next_binary_step(step: BinaryStep, has_cargo: bool, worked: bool) -> (r: BinaryStep)
    ensures
        r == next_try(step, has_cargo, worked),
{
    match step {
        BinaryStep::Manifest => if worked {
            BinaryStep::Done
        } else if has_cargo {
            BinaryStep::Registry
        } else {
            BinaryStep::Scripts
        },
        BinaryStep::Scripts => if worked {
            BinaryStep::Done
        } else {
            BinaryStep::Registry
        },
        BinaryStep::Registry => if worked {
            BinaryStep::Done
        } else if has_cargo {
            BinaryStep::Build
        } else {
            BinaryStep::Launcher
        },
        BinaryStep::Build => BinaryStep::Launcher,
        BinaryStep::Launcher => BinaryStep::Done,
        BinaryStep::Done => BinaryStep::Done,
    }
}

/// How many steps are left at most.
pub open spec fn steps_left(step: BinaryStep) -> nat {
    match step {
        BinaryStep::Manifest => 5,
        BinaryStep::Scripts => 4,
        BinaryStep::Registry => 3,
        BinaryStep::Build => 2,
        BinaryStep::Launcher => 1,
        BinaryStep::Done => 0,
    }
}

/// Every step brings the end nearer, a skill is built only if it can be, and a
/// program that was found or downloaded ends the search.
pub proof fn the_search_for_a_program_ends(step: BinaryStep, has_cargo: bool, worked: bool)
    ensures
        step != BinaryStep::Done ==> steps_left(next_try(step, has_cargo, worked)) < steps_left(
            step,
        ),
        next_try(step, has_cargo, worked) == BinaryStep::Build ==> has_cargo,
        next_try(step, has_cargo, worked) == BinaryStep::Scripts ==> !has_cargo,
        worked && (step == BinaryStep::Manifest || step == BinaryStep::Scripts || step
            == BinaryStep::Registry) ==> next_try(step, has_cargo, worked) == BinaryStep::Done,
{
}

/// The text is that of a launcher that builds the skill when it is first run.
pub open spec fn lazy_launcher(text: Text) -> bool {
    &&& contains_text(text, "Skill binary is missing and cargo is not installed"@)
    &&& contains_text(text, "cargo build --release"@)
    &&& contains_text(text, "target/release/"@)
}

/// Whether a program is a launcher that builds the skill when it is first run.
/// The text is missing if it cannot be read.
pub fn is_generated_lazy_cargo_wrapper(text: &Option<String>) -> (r: bool)
    ensures
        r == (opt_text(*text) is Some && lazy_launcher(opt_text(*text)->0)),
{
    match text {
        Some(contents) => contains(
            contents.as_str(),
            "Skill binary is missing and cargo is not installed",
        ) && contains(contents.as_str(), "cargo build --release") && contains(
            contents.as_str(),
            "target/release/",
        ),
        None => false,
    }
}

/// Whether a skill has its program: one with the name of the skill, or a `main`
/// that is no launcher.
pub fn has_installed_skill_executable(has_named: bool, has_main: bool, main_text: &Option<String>) -> (r:
    bool)
    ensures
        r == (has_named || has_main && !(opt_text(*main_text) is Some && lazy_launcher(
            opt_text(*main_text)->0,
        ))),
{
    has_named || (has_main && !is_generated_lazy_cargo_wrapper(main_text))
}

/// The key under which programs for a system are published.
pub open spec fn system_key(os: Text, arch: Text) -> Text {
    (if os == "macos"@ {
        "darwin"@
    } else {
        os
    }) + "-"@ + arch
}

/// The key under which programs for a system are published.
pub fn platform_key(os: &str, arch: &str) -> (r: String)
    ensures
        r@ == system_key(os@, arch@),
{
    let mut r = if same(os, "macos") {
        "darwin".to_owned()
    } else {
        os.to_owned()
    };
    r.append("-");
    r.append(arch);
    r
}

/// A published program.
#[derive(Debug)]
pub struct BinaryInfo {
    /// The system that it is for.
    pub key: String,
    pub url: String,
    pub sha256: Option<String>,
}

/// A package of the registry and its programs.
#[derive(Debug)]
pub struct RegistryEntry {
    pub name: String,
    pub skills: Vec<String>,
    pub binaries: Vec<BinaryInfo>,
}

/// The package is the one with the name, or holds the skill of that name.
pub open spec fn offers(entry: RegistryEntry, package: Text) -> bool {
    entry.name@ == package || texts(entry.skills@).contains(package)
}

/// `i` is the first package that offers a skill.
pub open spec fn first_offer(entries: Seq<RegistryEntry>, package: Text, i: int) -> bool {
    &&& 0 <= i < entries.len()
    &&& offers(entries[i], package)
    &&& forall|j: int| 0 <= j < i ==> !offers(#[trigger] entries[j], package)
}

/// The programs of the first package that offers a skill, if it has any.
pub fn lookup_registry_binaries<'a>(entries: &'a [RegistryEntry], package_name: &str) -> (r: Option<
    &'a [BinaryInfo],
>)
    ensures
        match r {
            Some(list) => exists|i: int|
                {
                    &&& #[trigger] first_offer(entries@, package_name@, i)
                    &&& list@ == entries@[i].binaries@
                    &&& list@.len() > 0
                },
            None => forall|i: int| #[trigger]
                first_offer(entries@, package_name@, i) ==> entries@[i].binaries@.len() == 0,
        },
{
    let mut i: usize = 0;
    while i < entries.len()
        invariant
            i <= entries.len(),
            forall|j: int| 0 <= j < i ==> !offers(#[trigger] entries@[j], package_name@),
        decreases entries.len() - i,
    {
        let e = &entries[i];
        if same(e.name.as_str(), package_name) || in_list(e.skills.as_slice(), package_name) {
            proof {
                assert(first_offer(entries@, package_name@, i as int));
                assert forall|k: int| #[trigger] first_offer(entries@, package_name@, k) implies k
                    == i by {
                    if k < i {
                        assert(!offers(entries@[k], package_name@));
                    } else if i < k {
                        assert(!offers(entries@[i as int], package_name@));
                    }
                }
            }
            if e.binaries.len() == 0 {
                return None;
            }
            return Some(e.binaries.as_slice());
        }
        i += 1;
    }
    None
}

/// `i` is the last program for a system: where a key comes twice the later counts.
pub open spec fn published_at(list: Seq<BinaryInfo>, key: Text, i: int) -> bool {
    &&& 0 <= i < list.len()
    &&& list[i].key@ == key
    &&& forall|j: int| i < j < list.len() ==> (#[trigger] list[j]).key@ != key
}

/// The address and the expected digest of the program for a system, if there is
/// one with an address.
pub fn binary_for(list: &[BinaryInfo], key: &str) -> (r: Option<(String, Option<String>)>)
    ensures
        match r {
            Some(found) => exists|i: int|
                {
                    &&& #[trigger] published_at(list@, key@, i)
                    &&& found.0@ == list@[i].url@
                    &&& opt_text(found.1) == opt_text(list@[i].sha256)
                    &&& trimmed(list@[i].url@).len() > 0
                },
            None => forall|i: int| #[trigger]
                published_at(list@, key@, i) ==> trimmed(list@[i].url@).len() == 0,
        },
{
    let mut i: usize = list.len();
    while i > 0
        invariant
            i <= list.len(),
            forall|j: int| i <= j < list@.len() ==> (#[trigger] list@[j]).key@ != key@,
        decreases i,
    {
        let info = &list[i - 1];
        if same(info.key.as_str(), key) {
            proof {
                assert(published_at(list@, key@, i - 1));
                assert forall|k: int| #[trigger] published_at(list@, key@, k) implies k == i - 1 by {
                    if k < i - 1 {
                        assert(list@[i - 1].key@ != key@);
                    }
                }
            }
            if trim(info.url.as_str()).as_str().is_empty() {
                return None;
            }
            return Some((info.url.clone(), copy_opt(&info.sha256)));
        }
        i -= 1;
    }
    None
}

/// The name that a line of a package description gives, if it gives one.
pub open spec fn line_name(line: Text) -> Option<Text> {
    let pieces = split_text(trimmed(line), '=');
    if "name"@.is_prefix_of(trimmed(line)) && pieces.len() > 1 {
        Some(trimmed_both(trimmed(pieces[1]), CharClass::Only('"')))
    } else {
        None
    }
}

/// The names that some lines give.
pub open spec fn names_in(list: Seq<Text>) -> Seq<Text>
    decreases list.len(),
{
    if list.len() == 0 {
        Seq::empty()
    } else {
        match line_name(list.last()) {
            Some(name) => names_in(list.drop_last()).push(name),
            None => names_in(list.drop_last()),
        }
    }
}

/// The names that a package description gives, in order: the first of them
/// under which a program was built is the program.
pub fn cargo_names(cargo_toml: &str) -> (out: Vec<String>)
    ensures
        texts(out@) == names_in(text_lines(cargo_toml@)),
{
    let list = lines(cargo_toml);
    let ghost all = texts(list@);
    let mut out: Vec<String> = Vec::new();
    let mut i: usize = 0;
    proof {
        assert(all.take(0) =~= Seq::empty());
        assert(texts(out@) =~= Seq::empty());
    }
    while i < list.len()
        invariant
            i <= list.len(),
            all == texts(list@),
            texts(out@) == names_in(all.take(i as int)),
        decreases list.len() - i,
    {
        proof {
            assert(all.take(i + 1).drop_last() =~= all.take(i as int));
            assert(all.take(i + 1).last() == list@[i as int]@);
        }
        let line = trim(list[i].as_str());
        if starts_with(line.as_str(), "name") {
            let pieces = split(line.as_str(), '=');
            if pieces.len() > 1 {
                let inner = trim(pieces[1].as_str());
                let name = trim_class(inner.as_str(), CharClass::Only('"'));
                proof {
                    assert(split_text(line@, '=')[1] == pieces@[1]@);
                    lemma_texts_push(out@, name);
                }
                out.push(name);
            }
        }
        i += 1;
    }
    proof {
        assert(all.take(all.len() as int) =~= all);
    }
    out
}

} // verus!

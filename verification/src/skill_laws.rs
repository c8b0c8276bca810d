//! What holds of every skill that is listed, installed, updated, removed or
//! searched for.
use vstd::prelude::*;

use crate::arguments::{list_member, text_member};
use crate::json::Json;
use crate::manage_skills::{
    action_named, branch_or_main, by_name, copied, entry_text, found_packages, install_plan,
    installed, listing_lines, listing_text, never_copied, package_block, plain_name,
    registry_version, repo_parts, search_text, skill_line, skip_note, skipped,
    skills_are_listed_by_name, up_to_date, update_source, CandidateView, RepoShape, SkillAction,
    SkillDirView,
};
use crate::text::{
    contains_text, decimal, joined, lemma_filter_holds, lemma_split_pieces, lemma_three_parts,
    lemma_two_parts, lowercase, occurs_at, split_then_join, trimmed, trimmed_both, trimmed_start,
    CharClass, Text,
};
use crate::text_laws::{
    joined_texts_hold_their_parts, joined_then_split, lemma_held, lemma_held_within,
};
use crate::versions::{
    after_dashes, ahead_at, all_digits, digits_value, first_value, matter_ends, matter_value, newer,
    number, number_at, numbers, unsigned, version_in, version_numbers,
};

verus! {

/// Each action is asked for by its own name, and by no other.
pub proof fn actions_have_their_own_names(name: Text)
    ensures
        action_named(name) == Some(SkillAction::List) <==> name == "list"@,
        action_named(name) == Some(SkillAction::Install) <==> name == "install"@,
        action_named(name) == Some(SkillAction::Remove) <==> name == "remove"@,
        action_named(name) == Some(SkillAction::Search) <==> name == "search"@,
        action_named(name) == Some(SkillAction::Update) <==> name == "update"@,
{
    reveal_strlit("list");
    reveal_strlit("install");
    reveal_strlit("remove");
    reveal_strlit("search");
    reveal_strlit("update");
    assert("list"@.len() == 4);
    assert("install"@.len() == 7);
    assert("remove"@[0] == 'r');
    assert("search"@[0] == 's');
    assert("update"@[0] == 'u');
    assert("remove"@.len() == 6 && "search"@.len() == 6 && "update"@.len() == 6);
}

// ---------------------------------------------------------------------------
// Installing

/// The branch that is asked for is the one that is fetched; only where none is
/// asked for it is `main`.
pub proof fn the_branch_that_was_asked_for_is_fetched(repo: Text, branch: Option<Text>)
    ensures
        branch matches Some(asked) ==> install_plan(repo, branch_or_main(branch)).branch == asked,
        branch is None ==> install_plan(repo, branch_or_main(branch)).branch == "main"@,
{
}

/// What is fetched is what the path names: the owner, the repository and the
/// directory in it make up the path again, but for slashes around it. Neither
/// the owner nor the repository holds a slash. The address is that of the
/// repository.
pub proof fn the_repository_that_was_asked_for_is_fetched(repo: Text, branch: Text)
    requires
        repo_parts(repo).len() >= 2,
    ensures
        ({
            let plan = install_plan(repo, branch);
            let path = plan.owner + "/"@ + plan.repo;
            &&& !plan.owner.contains('/') && !plan.repo.contains('/')
            &&& trimmed_both(repo, CharClass::Only('/')) == match plan.subdir {
                Some(dir) => path + "/"@ + dir,
                None => path,
            }
            &&& plan.clone_url == "https://github.com/"@ + path + ".git"@
        }),
{
    reveal_strlit("/");
    assert("/"@ =~= seq!['/']);
    let inner = trimmed_both(repo, CharClass::Only('/'));
    let parts = repo_parts(repo);
    split_then_join(inner, '/');
    lemma_split_pieces(inner, '/');
    let plan = install_plan(repo, branch);
    let path = plan.owner + "/"@ + plan.repo;
    assert(!parts[0].contains('/') && !parts[1].contains('/'));
    lemma_joined_tail(parts, "/"@);
    assert(plan.clone_url =~= "https://github.com/"@ + path + ".git"@);
}

/// The first two parts come before the rest.
proof fn lemma_joined_tail(parts: Seq<Text>, sep: Text)
    requires
        parts.len() >= 2,
    ensures
        joined(parts, sep) == if parts.len() == 2 {
            parts[0] + sep + parts[1]
        } else {
            parts[0] + sep + parts[1] + sep + joined(parts.skip(2), sep)
        },
    decreases parts.len(),
{
    if parts.len() == 2 {
        assert(parts.drop_last()[0] == parts[0]);
        assert(parts.drop_last().len() == 1);
        assert(joined(parts.drop_last(), sep) == parts[0]);
    } else {
        let rest = parts.drop_last();
        lemma_joined_tail(rest, sep);
        assert(rest[0] == parts[0] && rest[1] == parts[1]);
        let tail = parts.skip(2);
        if parts.len() == 3 {
            assert(tail.len() == 1 && tail[0] == parts.last());
            assert(joined(tail, sep) == tail[0]);
            assert(joined(parts, sep) =~= parts[0] + sep + parts[1] + sep + parts.last());
        } else {
            assert(tail.drop_last() =~= rest.skip(2));
            assert(tail.last() == parts.last());
            assert(joined(parts, sep) =~= parts[0] + sep + parts[1] + sep + (joined(
                rest.skip(2),
                sep,
            ) + sep + parts.last()));
        }
    }
}

/// A directory is looked at: all of a single skill, of many only those that are
/// directories and not hidden.
pub open spec fn looked_at(c: CandidateView, shape: RepoShape) -> bool {
    shape == RepoShape::Many ==> c.is_dir && !(c.name.len() > 0 && c.name[0] == '.')
}

/// A skill is copied exactly if it is looked at and is not there yet or is to be
/// replaced. It counts as installed if it was copied and, in a repository of many
/// skills, is described. What is there and is not to be replaced is left alone and
/// told.
pub proof fn skills_are_installed_or_told(
    list: Seq<CandidateView>,
    shape: RepoShape,
    force: bool,
    name: Text,
)
    ensures
        copied(list, shape, force).contains(name) <==> exists|i: int|
            0 <= i < list.len() && (#[trigger] list[i]).name == name && looked_at(list[i], shape) && (
            force || !list[i].present),
        installed(list, shape, force).contains(name) <==> exists|i: int|
            0 <= i < list.len() && (#[trigger] list[i]).name == name && looked_at(list[i], shape) && (
            force || !list[i].present) && (shape == RepoShape::Many ==> list[i].described),
        skipped(list, shape, force).len() > 0 <==> exists|i: int|
            0 <= i < list.len() && looked_at(#[trigger] list[i], shape) && list[i].present && !force,
    decreases list.len(),
{
    reveal_strlit(".");
    if list.len() > 0 {
        let rest = list.drop_last();
        let c = list[list.len() - 1];
        assert(list.last() == c);
        skills_are_installed_or_told(rest, shape, force, name);
        assert(forall|i: int| 0 <= i < rest.len() ==> #[trigger] rest[i] == list[i]);
        assert("."@.is_prefix_of(c.name) <==> c.name.len() > 0 && c.name[0] == '.') by {
            if c.name.len() > 0 {
                assert(c.name.subrange(0, 1)[0] == c.name[0]);
                if c.name[0] == '.' {
                    assert("."@ =~= c.name.subrange(0, 1));
                }
            }
        }
        let taken = looked_at(c, shape) && (force || !c.present);
        let before = copied(rest, shape, force);
        let now = copied(list, shape, force);
        assert(now.contains(name) <==> before.contains(name) || (taken && c.name == name)) by {
            lemma_pushed_holds(before, c.name, name);
        }
        let counts = taken && (shape == RepoShape::Many ==> c.described);
        let earlier = installed(rest, shape, force);
        let done = installed(list, shape, force);
        assert(done.contains(name) <==> earlier.contains(name) || (counts && c.name == name)) by {
            lemma_pushed_holds(earlier, c.name, name);
        }
        if exists|i: int|
            0 <= i < rest.len() && (#[trigger] rest[i]).name == name && looked_at(rest[i], shape) && (
            force || !rest[i].present) {
            let i = choose|i: int|
                0 <= i < rest.len() && (#[trigger] rest[i]).name == name && looked_at(
                    rest[i],
                    shape,
                ) && (force || !rest[i].present);
            assert(list[i] == rest[i]);
        }
        if exists|i: int|
            0 <= i < rest.len() && (#[trigger] rest[i]).name == name && looked_at(rest[i], shape) && (
            force || !rest[i].present) && (shape == RepoShape::Many ==> rest[i].described) {
            let i = choose|i: int|
                0 <= i < rest.len() && (#[trigger] rest[i]).name == name && looked_at(
                    rest[i],
                    shape,
                ) && (force || !rest[i].present) && (shape == RepoShape::Many
                    ==> rest[i].described);
            assert(list[i] == rest[i]);
        }
        if exists|i: int|
            0 <= i < rest.len() && looked_at(#[trigger] rest[i], shape) && rest[i].present && !force {
            let i = choose|i: int|
                0 <= i < rest.len() && looked_at(#[trigger] rest[i], shape) && rest[i].present
                    && !force;
            assert(list[i] == rest[i]);
        }
        assert forall|i: int| 0 <= i < rest.len() implies #[trigger] list[i] == rest[i] by {
        }
    }
}

proof fn lemma_pushed_holds(list: Seq<Text>, more: Text, name: Text)
    ensures
        list.push(more).contains(name) <==> list.contains(name) || more == name,
{
    let all = list.push(more);
    if list.contains(name) {
        assert(all[list.index_of(name)] == name);
    }
    if more == name {
        assert(all[list.len() as int] == name);
    }
    if all.contains(name) {
        let k = all.index_of(name);
        if k < list.len() {
            assert(list[k] == name);
        }
    }
}

/// What is said of a skill that is left alone begins with its name, and speaks of
/// an update exactly if there is a newer version.
pub proof fn skipped_skills_are_named(c: CandidateView)
    ensures
        c.name.is_prefix_of(skip_note(c)),
        version_in(c.local_md) is None || version_in(c.remote_md) is None ==> skip_note(c) == c.name,
        version_in(c.local_md) matches Some(local) ==> (version_in(c.remote_md) matches Some(remote)
            ==> ((c.name + " (update available: "@).is_prefix_of(skip_note(c)) <==> newer(
            remote,
            local,
        ))),
{
    reveal_strlit(" (update available: ");
    reveal_strlit(" (up to date: ");
    let note = skip_note(c);
    assert(note.subrange(0, c.name.len() as int) =~= c.name);
    let head = c.name + " (update available: "@;
    if let Some(local) = version_in(c.local_md) {
        if let Some(remote) = version_in(c.remote_md) {
            let k = c.name.len() as int + 4;
            assert(head[k] == 'd');
            if newer(remote, local) {
                assert(head =~= note.subrange(0, head.len() as int));
            } else {
                assert(note[k] == ' ');
                if head.is_prefix_of(note) {
                    assert(note.subrange(0, head.len() as int)[k] == note[k]);
                }
            }
        }
    }
}

/// What came with version control, fetched packages or builds is not copied, and
/// everything else is.
pub proof fn only_built_things_are_left_out(name: Text)
    ensures
        never_copied(name) <==> name == ".git"@ || name == "node_modules"@ || name == "target"@,
{
}

// ---------------------------------------------------------------------------
// Removing

/// A skill is removed by a name that stays in the directory of skills: a path, or
/// a name for the directory itself or the one above it, is refused.
pub proof fn removal_stays_in_its_directory(name: Text, before: Text, after: Text)
    ensures
        !plain_name(before + "/"@ + after),
        !plain_name(before + "\\"@ + after),
        !plain_name(".."@),
        !plain_name("."@),
        plain_name(name) ==> forall|i: int|
            0 <= i < name.len() ==> (#[trigger] name[i]) != '/' && name[i] != '\\' && name[i] != '\0',
        (forall|i: int|
            0 <= i < name.len() ==> (#[trigger] name[i]) != '/' && name[i] != '\\' && name[i]
                != '\0') && name != "."@ && name != ".."@ ==> plain_name(name),
{
    reveal_strlit("/");
    reveal_strlit("\\");
    let a = before + "/"@ + after;
    assert(a[before.len() as int] == '/');
    assert(a.contains('/'));
    let b = before + "\\"@ + after;
    assert(b[before.len() as int] == '\\');
    assert(b.contains('\\'));
    if plain_name(name) {
        assert forall|i: int| 0 <= i < name.len() implies (#[trigger] name[i]) != '/' && name[i]
            != '\\' && name[i] != '\0' by {
            assert(name.contains(name[i]));
        }
    }
}

// ---------------------------------------------------------------------------
// Updating

/// An update fetches what the request names. Without a path it fetches the skill
/// from where it came: from the directory of the repository that was noted.
/// Without a path and a note nothing is fetched.
pub proof fn updates_come_from_the_source(
    repo: Option<Text>,
    name: Option<Text>,
    note: Option<(Option<Text>, Option<Text>)>,
)
    ensures
        repo matches Some(path) ==> update_source(repo, name, note) == Some(
            (Seq::<char>::empty(), path),
        ),
        repo is None && (name is None || note is None) ==> update_source(repo, name, note) is None,
        repo is None && name is Some ==> (note matches Some((Some(noted), None)) ==> update_source(
            repo,
            name,
            note,
        ) == Some((noted, noted))),
        repo is None && name is Some ==> (note matches Some((Some(noted), Some(dir))) ==> {
            &&& update_source(repo, name, note) matches Some(found)
            &&& found.0 == noted
            &&& noted.is_prefix_of(found.1)
            &&& dir.is_suffix_of(found.1)
            &&& found.1.len() == noted.len() + 1 + dir.len()
            &&& found.1[noted.len() as int] == '/'
        }),
{
    reveal_strlit("/");
    if let Some((Some(noted), Some(dir))) = note {
        lemma_three_parts(noted, "/"@, dir);
        assert((noted + "/"@ + dir)[noted.len() as int] == '/');
    }
}

/// A skill is up to date exactly if its version and that of the registry are
/// known and the registry's is not newer. The answer names the skill and its
/// version.
pub proof fn only_newer_versions_are_fetched(
    name: Text,
    local: Option<Text>,
    registry: Option<Text>,
)
    ensures
        up_to_date(name, local, registry) is Some <==> (local matches Some(have)
            && registry matches Some(published) && !newer(published, have)),
        up_to_date(name, local, registry) matches Some(answer) ==> {
            &&& contains_text(answer, name)
            &&& contains_text(answer, local->0)
        },
{
    if let Some(answer) = up_to_date(name, local, registry) {
        let have = local->0;
        let tail = "' is up to date (v"@ + have + ")"@;
        assert(answer =~= "'"@ + name + tail);
        lemma_held("'"@, name, tail);
        let head = "'"@ + name + "' is up to date (v"@;
        assert(answer =~= head + have + ")"@);
        lemma_held(head, have, ")"@);
    }
}

/// The version of a package in the registry is that of the first entry for it
/// that has one. An entry is for a package by its repository, by its name, or by
/// a skill that it lists.
pub proof fn versions_come_from_the_registry(
    entries: Seq<Json>,
    repo: Text,
    skill: Option<Text>,
    k: int,
)
    requires
        0 <= k < entries.len(),
        text_member(entries[k], "version"@) is Some,
        entry_text(entries[k], "repo"@, ""@) == repo || entry_text(entries[k], "name"@, ""@) == repo
            || (skill matches Some(name) && list_member(entries[k], "skills"@).contains(name)),
        forall|j: int|
            0 <= j < k ==> text_member(#[trigger] entries[j], "version"@) is None || (entry_text(
                entries[j],
                "repo"@,
                ""@,
            ) != repo && entry_text(entries[j], "name"@, ""@) != repo && !(skill matches Some(name)
                && list_member(entries[j], "skills"@).contains(name))),
    ensures
        registry_version(entries, repo, skill) == text_member(entries[k], "version"@),
    decreases k,
{
    if k > 0 {
        let rest = entries.drop_first();
        assert(entries[0] == entries[0]);
        assert forall|j: int| 0 <= j < k - 1 implies text_member(
            #[trigger] rest[j],
            "version"@,
        ) is None || (entry_text(rest[j], "repo"@, ""@) != repo && entry_text(
            rest[j],
            "name"@,
            ""@,
        ) != repo && !(skill matches Some(name) && list_member(rest[j], "skills"@).contains(name))) by {
            assert(rest[j] == entries[j + 1]);
        }
        assert(rest[k - 1] == entries[k]);
        versions_come_from_the_registry(rest, repo, skill, k - 1);
    }
}

// ---------------------------------------------------------------------------
// Listing and searching

/// Every described skill is listed and no other directory is. The list says how
/// many there are, and each line begins with the name of its skill.
pub proof fn described_skills_are_listed(dirs: Seq<SkillDirView>, dir: SkillDirView)
    ensures
        by_name(dirs).contains(dir) <==> dirs.contains(dir) && dir.described,
        listing_lines(dirs).len() == by_name(dirs).len(),
        dir.name.is_prefix_of(skill_line(dir)),
        version_in(dir.skill_md) matches Some(version) ==> (dir.name + "  v"@
            + version).is_prefix_of(skill_line(dir)),
        dirs.contains(dir) && dir.described ==> {
            &&& contains_text(listing_text(listing_lines(dirs)), skill_line(dir))
            &&& ("Installed skills ("@ + decimal(by_name(dirs).len())).is_prefix_of(
                listing_text(listing_lines(dirs)),
            )
        },
        (forall|i: int| 0 <= i < dirs.len() ==> !(#[trigger] dirs[i]).described) ==> listing_text(
            listing_lines(dirs),
        ) == "No skills installed."@,
{
    broadcast use vstd::seq_lib::group_to_multiset_ensures;

    skills_are_listed_by_name(dirs);
    let pred = |d: SkillDirView| d.described;
    let listed = by_name(dirs);
    let kept = dirs.filter(pred);
    lemma_filter_holds(dirs, pred, dir);
    if listed.contains(dir) {
        assert(listed.to_multiset().contains(dir));
        assert(kept.contains(dir));
    }
    if kept.contains(dir) {
        assert(kept.to_multiset().contains(dir));
        assert(listed.contains(dir));
    }
    let line = skill_line(dir);
    assert(line.subrange(0, dir.name.len() as int) =~= dir.name);
    if let Some(version) = version_in(dir.skill_md) {
        let head = dir.name + "  v"@ + version;
        assert(head =~= line.subrange(0, head.len() as int));
    }
    let lines = listing_lines(dirs);
    if dirs.contains(dir) && dir.described {
        let k = listed.index_of(dir);
        assert(lines[k] == line);
        joined_texts_hold_their_parts(lines, "\n"@, k);
        let text = listing_text(lines);
        let head = "Installed skills ("@ + decimal(lines.len()) + "):\n"@;
        let none = Seq::<char>::empty();
        let body = joined(lines, "\n"@);
        assert(text =~= head + body + none);
        lemma_held(head, body, none);
        lemma_held_within(text, body, line);
        let start = "Installed skills ("@ + decimal(listed.len());
        assert(start =~= text.subrange(0, start.len() as int));
    }
    if forall|i: int| 0 <= i < dirs.len() ==> !(#[trigger] dirs[i]).described {
        if listed.len() > 0 {
            let d = listed[0];
            assert(listed.to_multiset().contains(d));
            assert(kept.contains(d));
            lemma_filter_holds(dirs, pred, d);
            assert(!dirs[dirs.index_of(d)].described);
        }
    }
}

/// A search finds exactly the packages whose name, description or tags hold what
/// is searched for, whatever the case; without a query it finds all. The answer
/// tells of each of them.
pub proof fn searches_find_what_mentions_the_query(
    entries: Seq<Json>,
    query: Option<Text>,
    entry: Json,
)
    ensures
        found_packages(entries, query).contains(entry) <==> entries.contains(entry) && (
        query matches Some(q) ==> {
            ||| contains_text(lowercase(entry_text(entry, "name"@, ""@)), lowercase(q))
            ||| contains_text(lowercase(entry_text(entry, "description"@, ""@)), lowercase(q))
            ||| contains_text(lowercase(joined(list_member(entry, "tags"@), " "@)), lowercase(q))
        }),
        found_packages(entries, query).contains(entry) ==> {
            let text = search_text(entries, query);
            &&& contains_text(text, package_block(entry))
            &&& ("Available packages ("@ + decimal(found_packages(entries, query).len())).is_prefix_of(
                text,
            )
        },
        (entry_text(entry, "name"@, "?"@) + ": "@ + entry_text(entry, "description"@, ""@)).is_prefix_of(
            package_block(entry),
        ),
        list_member(entry, "skills"@).len() == 0 ==> contains_text(
            package_block(entry),
            "manage_skills(action=\"install\", repo=\""@ + entry_text(entry, "repo"@, ""@) + "\")"@,
        ),
{
    let pred = |e: Json|
        match query {
            Some(q) => crate::manage_skills::package_matches(e, lowercase(q)),
            None => true,
        };
    lemma_filter_holds(entries, pred, entry);
    let found = found_packages(entries, query);
    assert(found == entries.filter(pred));
    let told = |e: Json| package_block(e);
    let block = package_block(entry);
    let head = entry_text(entry, "name"@, "?"@) + ": "@ + entry_text(entry, "description"@, ""@);
    assert(head =~= block.subrange(0, head.len() as int));
    if list_member(entry, "skills"@).len() == 0 {
        reveal_strlit("\n  Install: manage_skills(action=\"install\", repo=\"");
        reveal_strlit("manage_skills(action=\"install\", repo=\"");
        let call = "manage_skills(action=\"install\", repo=\""@ + entry_text(entry, "repo"@, ""@)
            + "\")"@;
        let lead = "\n  Install: manage_skills(action=\"install\", repo=\""@;
        let start = head + lead.take(12);
        let none = Seq::<char>::empty();
        assert(block =~= start + call + none);
        lemma_held(start, call, none);
    }
    if found.contains(entry) {
        let k = found.index_of(entry);
        let blocks = found.map_values(told);
        assert(blocks[k] == block);
        joined_texts_hold_their_parts(blocks, "\n\n"@, k);
        let text = search_text(entries, query);
        let opening = "Available packages ("@ + decimal(found.len()) + "):\n"@;
        let none = Seq::<char>::empty();
        let body = joined(blocks, "\n\n"@);
        assert(text =~= opening + body + none);
        lemma_held(opening, body, none);
        lemma_held_within(text, body, block);
        let start = "Available packages ("@ + decimal(found.len());
        assert(start =~= text.subrange(0, start.len() as int));
    }
}

// ---------------------------------------------------------------------------
// Versions

/// A number is read as it is written.
pub proof fn numbers_are_read_as_written(n: u32)
    ensures
        number(decimal(n as nat)) == Some(n),
        !decimal(n as nat).contains('.'),
{
    lemma_written(n as nat);
    let text = decimal(n as nat);
    assert(unsigned(text) == text);
    if text.contains('.') {
        let i = text.index_of('.');
        assert(crate::versions::is_digit(text[i]));
    }
}

proof fn lemma_written(n: nat)
    ensures
        decimal(n).len() > 0,
        all_digits(decimal(n)),
        digits_value(decimal(n)) == n,
    decreases n,
{
    let text = decimal(n);
    assert(crate::text::digit(n) as int == 48 + n % 10);
    if n < 10 {
        assert(text.drop_last() =~= Seq::<char>::empty());
        assert(text.last() == crate::text::digit(n));
        assert(digits_value(text.drop_last()) == 0);
        assert(crate::versions::digit_value(text.last()) == n);
    } else {
        lemma_written(n / 10);
        assert(text.drop_last() =~= decimal(n / 10));
        assert(text.last() == crate::text::digit(n));
        assert(crate::versions::digit_value(text.last()) == n % 10);
        assert forall|i: int| 0 <= i < text.len() implies crate::versions::is_digit(
            #[trigger] text[i],
        ) by {
            if i < text.len() - 1 {
                assert(text[i] == decimal(n / 10)[i]);
            }
        }
    }
}

/// The text of a version with some numbers.
pub open spec fn version_text(list: Seq<u32>) -> Text {
    joined(list.map_values(|n: u32| decimal(n as nat)), "."@)
}

/// The numbers of a version are read as they are written, with dots between them.
pub proof fn versions_are_read_as_written(list: Seq<u32>)
    requires
        list.len() > 0,
    ensures
        version_numbers(version_text(list)) == list,
{
    reveal_strlit(".");
    assert("."@ =~= seq!['.']);
    let parts = list.map_values(|n: u32| decimal(n as nat));
    assert forall|i: int| 0 <= i < parts.len() implies !(#[trigger] parts[i]).contains('.') by {
        numbers_are_read_as_written(list[i]);
    }
    joined_then_split(parts, '.');
    lemma_numbers(list);
}

proof fn lemma_numbers(list: Seq<u32>)
    ensures
        numbers(list.map_values(|n: u32| decimal(n as nat))) == list,
    decreases list.len(),
{
    let written = |n: u32| decimal(n as nat);
    let parts = list.map_values(written);
    if list.len() > 0 {
        lemma_numbers(list.drop_last());
        numbers_are_read_as_written(list.last());
        assert(parts.drop_last() =~= list.drop_last().map_values(written));
        assert(list.drop_last().push(list.last()) =~= list);
    } else {
        assert(numbers(parts) =~= list);
    }
}

/// Of two versions that agree in their first numbers the one with the greater
/// next number is newer, however the rest goes; a number that is not written
/// counts as zero.
pub proof fn the_first_difference_decides(
    same: Seq<u32>,
    a: u32,
    b: u32,
    more: Seq<u32>,
    other: Seq<u32>,
)
    requires
        a > b,
    ensures
        newer(version_text(same.push(a) + more), version_text(same.push(b) + other)),
        !newer(version_text(same.push(b) + other), version_text(same.push(a) + more)),
        same.len() > 0 ==> newer(version_text(same.push(a) + more), version_text(same)),
        same.len() > 0 ==> !newer(version_text(same), version_text(same.push(0))),
{
    let x = same.push(a) + more;
    let y = same.push(b) + other;
    versions_are_read_as_written(x);
    versions_are_read_as_written(y);
    let k = same.len() as int;
    assert(number_at(x, k) == a && number_at(y, k) == b);
    assert forall|j: int| 0 <= j < k implies #[trigger] number_at(x, j) == number_at(y, j) by {
        assert(x[j] == same[j] && y[j] == same[j]);
    }
    assert(ahead_at(x, y, k));
    crate::versions::newer_is_asymmetric(version_text(x), version_text(y));
    if same.len() > 0 {
        versions_are_read_as_written(same);
        assert forall|j: int| 0 <= j < k implies #[trigger] number_at(x, j) == number_at(same, j) by {
            assert(x[j] == same[j]);
        }
        assert(number_at(same, k) == 0);
        assert(ahead_at(x, same, k));
        let z = same.push(0);
        versions_are_read_as_written(z);
        assert forall|j: int| 0 <= j implies #[trigger] number_at(same, j) == number_at(z, j) by {
            if j < k {
                assert(z[j] == same[j]);
            }
        }
    }
}

/// The value of the first line that begins with a key and a colon counts.
proof fn lemma_first_value(list: Seq<Text>, prefix: Text, k: int)
    requires
        0 <= k < list.len(),
        prefix.is_prefix_of(trimmed(list[k])),
        forall|j: int| 0 <= j < k ==> !prefix.is_prefix_of(trimmed(#[trigger] list[j])),
    ensures
        first_value(list, prefix) == Some(trimmed(trimmed(list[k]).skip(prefix.len() as int))),
    decreases k,
{
    if k > 0 {
        assert(!prefix.is_prefix_of(trimmed(list[0])));
        let rest = list.drop_first();
        assert forall|j: int| 0 <= j < k - 1 implies !prefix.is_prefix_of(
            trimmed(#[trigger] rest[j]),
        ) by {
            assert(rest[j] == list[j + 1]);
        }
        assert(rest[k - 1] == list[k]);
        lemma_first_value(rest, prefix, k - 1);
    }
}

/// A description that begins with lines between dashes is read as it is written:
/// what stands behind a key and a colon is the value of the key, the first such
/// line counts, and what follows the closing dashes does not.
pub proof fn front_matter_is_read_as_written(list: Seq<Text>, rest: Text, key: Text, value: Text, k: int)
    requires
        list.len() > 0,
        list.last().len() > 0,
        list[0].len() > 0,
        forall|i: int|
            0 <= i < list.len() ==> !(#[trigger] list[i]).contains('\n') && (list[i].len() > 0
                ==> list[i].last() != '\r'),
        list[0][0] != '\r',
        !contains_text(joined(list, "\n"@), "\n---"@),
        0 <= k < list.len(),
        trimmed(list[k]) == key + ":"@ + value,
        forall|j: int| 0 <= j < k ==> !(key + ":"@).is_prefix_of(trimmed(#[trigger] list[j])),
    ensures
        matter_value("---\n"@ + joined(list, "\n"@) + "\n---"@ + rest, key) == Some(trimmed(value)),
{
    reveal_strlit("---\n");
    reveal_strlit("---");
    reveal_strlit("\n---");
    let matter = joined(list, "\n"@);
    let content = "---\n"@ + matter + "\n---"@ + rest;
    assert(content[0] == '-' && content[1] == '-' && content[2] == '-' && content[3] == '\n');
    assert(trimmed_start(content, CharClass::Space) == content);
    assert("---"@ =~= content.subrange(0, 3));
    let body = matter + "\n---"@ + rest;
    lemma_joined_first(list, "\n"@);
    let behind = content.skip(3);
    assert(behind[0] == '\n');
    assert(behind.drop_first() =~= body);
    assert(body[0] == list[0][0]);
    assert(list[0][0] != '\n') by {
        assert(list[0].contains(list[0][0]));
    }
    assert(trimmed_start(body, CharClass::LineBreak) == body);
    assert(after_dashes(content) == body);
    let end = matter.len() as int;
    assert(body.subrange(end, end + 4) =~= "\n---"@);
    assert(occurs_at(body, "\n---"@, end));
    assert forall|j: int| 0 <= j < end implies !occurs_at(body, "\n---"@, j) by {
        if occurs_at(body, "\n---"@, j) {
            if j + 4 <= end {
                assert(matter.subrange(j, j + 4) =~= body.subrange(j, j + 4));
                assert(occurs_at(matter, "\n---"@, j));
            } else {
                assert(body[end] == '\n');
                assert(body.subrange(j, j + 4)[end - j] == body[end]);
            }
        }
    }
    assert(matter_ends(content, end));
    let chosen = choose|e: int| matter_ends(content, e);
    assert(chosen == end);
    assert(body.take(end) =~= matter);
    crate::text_laws::lines_are_what_was_written(list);
    let prefix = key + ":"@;
    lemma_two_parts(prefix, value);
    assert((prefix + value).skip(prefix.len() as int) =~= value);
    lemma_first_value(list, prefix, k);
}

/// A joined text begins with its first part.
proof fn lemma_joined_first(parts: Seq<Text>, sep: Text)
    requires
        parts.len() > 0,
    ensures
        parts[0].is_prefix_of(joined(parts, sep)),
    decreases parts.len(),
{
    let whole = joined(parts, sep);
    if parts.len() > 1 {
        let rest = parts.drop_last();
        lemma_joined_first(rest, sep);
        assert(rest[0] == parts[0]);
        let before = joined(rest, sep);
        assert(whole.subrange(0, parts[0].len() as int) =~= before.subrange(
            0,
            parts[0].len() as int,
        ));
    } else {
        assert(whole.subrange(0, whole.len() as int) =~= whole);
    }
}

} // verus!

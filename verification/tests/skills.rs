use octos_agent::json::{to_text, Json, JsonMember};
use octos_agent::manage_skills::{
    check_up_to_date, clone_failure, copy_dir_recursive, do_install, do_list, do_remove,
    do_search, forced, install_answer, install_source, looked_up, maybe_npm_install, mentions,
    plan_install, plan_remove, plan_update, registry_version_for, repo_path, skill_name,
    subdir_missing, write_source_info, InstallSource, ManageSkillsTool, RepoShape, SkillAction, SkillCandidate, SkillDir, SkillRequest,
};
use octos_agent::skill_binary::{
    binary_for, cargo_names, digest_matches, has_installed_skill_executable,
    install_bytes_into_dir, is_generated_lazy_cargo_wrapper, lookup_registry_binaries,
    maybe_install_binary, next_binary_step, platform_key, BinaryInfo, BinaryStep, RegistryEntry,
};
use octos_agent::tool::Tool;
use octos_agent::versions::{extract_fm_value, skill_version, version_newer};
use sha2::Digest;
use std::io::Write;

fn list(items: &[&str]) -> Vec<String> {
    items.iter().map(|s| s.to_string()).collect()
}

fn request(action: &str) -> SkillRequest {
    SkillRequest {
        action: action.to_string(),
        repo: None,
        name: None,
        query: None,
        force: false,
        branch: None,
    }
}

fn tool() -> ManageSkillsTool {
    ManageSkillsTool::new("/tmp/skills".to_string())
}

fn schema() -> serde_json::Value {
    let tool = ManageSkillsTool::new("/tmp/skills".to_string());
    serde_json::from_str(&to_text(&tool.input_schema())).unwrap()
}

#[test]
fn tool_metadata() {
    let tool = ManageSkillsTool::new("/tmp/skills".to_string());
    assert_eq!(tool.name(), "manage_skills");
    assert!(tool.description().contains("skill"));
    assert!(tool.tags().contains(&"gateway".to_string()));
}

#[test]
fn schema_has_required_action() {
    let schema = schema();
    let required: Vec<&str> = schema["required"]
        .as_array()
        .unwrap()
        .iter()
        .map(|v| v.as_str().unwrap())
        .collect();
    assert!(required.contains(&"action"));
}

#[test]
fn schema_action_enum() {
    let schema = schema();
    let enums: Vec<&str> = schema["properties"]["action"]["enum"]
        .as_array()
        .unwrap()
        .iter()
        .map(|v| v.as_str().unwrap())
        .collect();
    assert_eq!(enums, vec!["list", "install", "update", "remove", "search"]);
}

#[test]
fn list_empty_dir() {
    let result = do_list(None);
    assert!(result.success);
    assert!(result.output.contains("No skills installed"));
    assert_eq!(do_list(Some(Vec::new())).output, result.output);
}

#[test]
fn skills_are_listed_by_name() {
    let dir = |name: &str, md: Option<&str>, manifest: Option<&str>| SkillDir {
        name: name.to_string(),
        described: true,
        skill_md: md.map(|s| s.to_string()),
        manifest: manifest.map(|s| s.to_string()),
    };
    let dirs = vec![
        dir("zeta", Some("---\nversion: 1.0\n---\n"), Some("{\"tools\":[{},{}]}")),
        dir("alpha", None, None),
        SkillDir { described: false, ..dir("hidden", None, None) },
    ];
    let result = do_list(Some(dirs));
    assert!(result.success);
    assert_eq!(result.output, "Installed skills (2):\nalpha\nzeta  v1.0  [2 tool(s)]");
}

#[test]
fn remove_rejects_traversal() {
    let result = plan_remove(&Some("../../etc".to_string())).unwrap_err();
    assert!(!result.success);
    assert!(result.output.contains("Invalid"));
}

#[test]
fn removal_needs_a_skill_that_is_there() {
    assert!(!plan_remove(&None).unwrap_err().success);
    assert_eq!(plan_remove(&Some("pod".to_string())).unwrap(), "pod");
    assert!(!do_remove("pod", false).success);
    let gone = do_remove("pod", true);
    assert!(gone.success);
    assert!(gone.output.contains("pod"));
}

#[test]
fn install_missing_repo() {
    assert_eq!(tool().execute(&request("install")).unwrap(), SkillAction::Install);
    let result = plan_install(&request("install")).unwrap_err();
    assert!(!result.success);
    assert!(result.output.contains("repo is required"));
}

#[test]
fn unknown_action() {
    let result = tool().execute(&request("bogus")).unwrap_err();
    assert!(!result.success);
    assert!(result.output.contains("Unknown action"));
}

#[test]
fn actions_are_known_by_name() {
    for (name, action) in [
        ("list", SkillAction::List),
        ("install", SkillAction::Install),
        ("remove", SkillAction::Remove),
        ("search", SkillAction::Search),
        ("update", SkillAction::Update),
    ] {
        assert_eq!(tool().execute(&request(name)).unwrap(), action);
    }
}

#[test]
fn an_install_is_planned_from_its_repo() {
    let mut asked = request("install");
    asked.repo = Some("mofa-org/mofa-skills/mofa-podcast".to_string());
    let plan = plan_install(&asked).unwrap();
    assert_eq!(plan.owner, "mofa-org");
    assert_eq!(plan.repo, "mofa-skills");
    assert_eq!(plan.subdir.as_deref(), Some("mofa-podcast"));
    assert_eq!(plan.branch, "main");
    assert_eq!(plan.clone_url, "https://github.com/mofa-org/mofa-skills.git");
    assert_eq!(repo_path(&plan), "mofa-org/mofa-skills");
    assert_eq!(skill_name("mofa-podcast"), "mofa-podcast");
    assert!(!clone_failure(&plan).success);
    assert!(!subdir_missing(&plan, "mofa-podcast").success);
    asked.repo = Some("no-slash".to_string());
    assert!(plan_install(&asked).is_err());
}

#[test]
fn skills_lie_in_a_directory_or_a_repository() {
    let mut asked = request("install");
    asked.repo = Some("mofa-org/mofa-skills/mofa-podcast".to_string());
    let mut plan = plan_install(&asked).unwrap();
    match install_source(&plan, true, true).unwrap() {
        InstallSource::Subdir { name, dir } => {
            assert_eq!(name, "mofa-podcast");
            assert_eq!(dir, "mofa-podcast");
        }
        other => panic!("{other:?}"),
    }
    assert_eq!(
        install_source(&plan, false, true).unwrap_err().output,
        "Subdirectory 'mofa-podcast' not found in mofa-org/mofa-skills"
    );
    plan.subdir = None;
    let root = install_source(&plan, false, true).unwrap();
    assert!(matches!(&root, InstallSource::Root { name } if name == "mofa-skills"));
    assert_eq!(root.shape(), RepoShape::One);
    let each = install_source(&plan, false, false).unwrap();
    assert!(matches!(each, InstallSource::Each));
    assert_eq!(each.shape(), RepoShape::Many);
    assert_eq!(looked_up("", "a/b/c"), "a/b/c");
    assert_eq!(looked_up("a/b", "a/b/c"), "a/b");
}

fn candidate(name: &str, present: bool, local: Option<&str>, remote: Option<&str>) -> SkillCandidate {
    let md = |v: Option<&str>| v.map(|v| format!("---\nversion: {v}\n---\n"));
    SkillCandidate {
        name: name.to_string(),
        is_dir: true,
        present,
        local_md: md(local),
        remote_md: md(remote),
        described: true,
    }
}

#[test]
fn current_skills_are_not_installed_again() {
    let all = vec![
        candidate("new", false, None, Some("1.0")),
        candidate("current", true, Some("1.0"), Some("1.0")),
        candidate("old", true, Some("1.0"), Some("1.1")),
    ];
    let outcome = do_install(&all, RepoShape::Many, false);
    assert!(outcome.copied.contains(&"new".to_string()));
    assert!(!outcome.copied.contains(&"current".to_string()));
    let answer = install_answer(&outcome);
    assert!(answer.success);
    let outcome = do_install(&all, RepoShape::Many, true);
    assert_eq!(outcome.copied, list(&["new", "current", "old"]));
}

#[test]
fn build_outputs_are_not_copied() {
    for name in [".git", "node_modules", "target"] {
        assert!(copy_dir_recursive(name));
    }
    assert!(!copy_dir_recursive("src"));
    assert!(maybe_npm_install(true, false));
    assert!(!maybe_npm_install(true, true));
    assert!(!maybe_npm_install(false, false));
}

#[test]
fn extract_fm_value_works() {
    let content = "---\nversion: 1.2.3\nauthor: test\n---\nBody";
    assert_eq!(extract_fm_value(content, "version"), Some("1.2.3".into()));
    assert_eq!(extract_fm_value(content, "author"), Some("test".into()));
    assert_eq!(extract_fm_value(content, "missing"), None);
}

#[test]
fn front_matter_must_be_closed() {
    assert_eq!(extract_fm_value("---\nversion: 1\n", "version"), None);
    assert_eq!(extract_fm_value("version: 1\n---\n", "version"), None);
    assert_eq!(
        extract_fm_value("  \n---\r\n  version:   2  \n---\n", "version"),
        Some("2".to_string())
    );
    assert_eq!(skill_version(&None), None);
    assert_eq!(skill_version(&Some("---\nversion: 3\n---".to_string())), Some("3".to_string()));
}

#[test]
fn versions_are_compared_by_number() {
    assert!(version_newer("1.10.0", "1.9.0"));
    assert!(!version_newer("1.9.0", "1.10.0"));
    assert!(version_newer("1.0.1", "1.0"));
    assert!(!version_newer("1.0.0", "1.0"));
    assert!(!version_newer("1.0", "1.0.0"));
    assert!(version_newer("2", "1.99.99"));
    assert!(!version_newer("abc", "0"));
    assert!(version_newer("4294967295", "4294967294"));
    assert!(!version_newer("4294967296", "0"));
}

fn object(members: Vec<(&str, Json)>) -> Json {
    Json::Object(
        members
            .into_iter()
            .map(|(key, value)| JsonMember { key: key.to_string(), value })
            .collect(),
    )
}

fn text(s: &str) -> Json {
    Json::Str(s.to_string())
}

fn registry() -> Vec<Json> {
    vec![
        object(vec![
            ("name", text("mofa-skills")),
            ("repo", text("mofa-org/mofa-skills")),
            ("version", text("2.0")),
            ("description", text("Slides and PODCASTS")),
            ("skills", Json::Array(vec![text("mofa-podcast")])),
        ]),
        object(vec![("name", text("other")), ("repo", text("x/other"))]),
    ]
}

#[test]
fn the_registry_knows_versions() {
    let all = registry();
    assert_eq!(
        registry_version_for(&all, "mofa-org/mofa-skills", &None),
        Some("2.0".to_string())
    );
    assert_eq!(registry_version_for(&all, "mofa-skills", &None), Some("2.0".to_string()));
    assert_eq!(
        registry_version_for(&all, "nowhere", &Some("mofa-podcast".to_string())),
        Some("2.0".to_string())
    );
    assert_eq!(registry_version_for(&all, "x/other", &None), None);
}

#[test]
fn searches_do_not_mind_case() {
    let all = registry();
    let found = do_search(&Some("podcasts".to_string()), &all);
    assert!(found.success);
    assert!(found.output.contains("mofa-skills"), "{}", found.output);
    assert!(!found.output.contains("x/other"), "{}", found.output);
    let every = do_search(&None, &all);
    assert!(every.output.contains("other"), "{}", every.output);
    let none = do_search(&Some("zzz".to_string()), &all);
    assert!(!none.output.contains("mofa-skills"), "{}", none.output);
}

#[test]
fn a_query_may_be_held_anywhere() {
    assert!(mentions("pod", "", "", "po"));
    assert!(mentions("", "a pod", "", "pod"));
    assert!(mentions("", "", "x pod", "pod"));
    assert!(!mentions("a", "b", "c", "pod"));
}

#[test]
fn updates_know_where_a_skill_came_from() {
    let note = write_source_info(
        "mofa-org/mofa-skills",
        &Some("mofa-podcast".to_string()),
        "main",
        "2024-01-01T00:00:00+00:00",
    );
    let value: serde_json::Value = serde_json::from_str(&note).unwrap();
    assert_eq!(serde_json::to_string_pretty(&value).unwrap(), note);
    let mut asked = request("update");
    asked.name = Some("mofa-podcast".to_string());
    let (source, repo) = plan_update(&asked, &Some(note)).unwrap();
    assert_eq!(source, "mofa-org/mofa-skills");
    assert_eq!(repo, "mofa-org/mofa-skills/mofa-podcast");
    assert!(plan_update(&asked, &None).is_err());
    let again = forced(&asked, "mofa-org/mofa-skills");
    assert!(again.force);
    assert_eq!(again.repo.as_deref(), Some("mofa-org/mofa-skills"));
}

#[test]
fn current_skills_are_not_updated() {
    let v = |s: &str| Some(s.to_string());
    assert!(check_up_to_date("pod", &v("1.0"), &v("1.0")).is_some());
    assert!(check_up_to_date("pod", &v("1.1"), &v("1.0")).is_some());
    assert!(check_up_to_date("pod", &v("1.0"), &v("1.1")).is_none());
    assert!(check_up_to_date("pod", &None, &v("1.1")).is_none());
    assert!(check_up_to_date("pod", &v("1.0"), &None).is_none());
}

#[test]
fn platform_key_matches_manifest_convention() {
    assert_eq!(platform_key("macos", "aarch64"), "darwin-aarch64");
    assert_eq!(platform_key("linux", "x86_64"), "linux-x86_64");
}

const LAZY_WRAPPER: &str = r#"#!/usr/bin/env bash
set -euo pipefail
BIN="$SCRIPT_DIR/target/release/mofa-fm"
if [[ ! -x "$BIN" ]]; then
  if ! command -v cargo >/dev/null 2>&1; then
    printf '{"output":"Skill binary is missing and cargo is not installed. Run: cargo build --release in mofa-fm","success":false}\n'
    exit 0
  fi
  cargo build --release
fi
"#;

#[test]
fn generated_lazy_cargo_wrapper_does_not_block_binary_install() {
    let main = Some(LAZY_WRAPPER.to_string());
    assert!(is_generated_lazy_cargo_wrapper(&main));
    assert!(!has_installed_skill_executable(false, true, &main));
}

#[test]
fn real_main_executable_blocks_binary_reinstall() {
    let main = Some("#!/usr/bin/env bash\necho ok\n".to_string());
    assert!(has_installed_skill_executable(false, true, &main));
    assert!(has_installed_skill_executable(false, true, &None));
    assert!(has_installed_skill_executable(true, false, &None));
    assert!(!has_installed_skill_executable(false, false, &None));
}

#[test]
fn programs_are_looked_for_in_order() {
    assert_eq!(maybe_install_binary(false, false, false), BinaryStep::Done);
    assert_eq!(maybe_install_binary(true, true, true), BinaryStep::Done);
    let mut step = maybe_install_binary(true, true, false);
    assert_eq!(step, BinaryStep::Manifest);
    let mut seen = vec![step];
    while step != BinaryStep::Done {
        step = next_binary_step(step, true, false);
        seen.push(step);
    }
    assert_eq!(
        seen,
        vec![
            BinaryStep::Manifest,
            BinaryStep::Registry,
            BinaryStep::Build,
            BinaryStep::Launcher,
            BinaryStep::Done
        ]
    );
    assert_eq!(next_binary_step(BinaryStep::Manifest, true, true), BinaryStep::Done);
}

fn archive(files: &[(&str, &[u8])]) -> Vec<u8> {
    let files: Vec<(&str, &[u8], u32)> = files.iter().map(|(n, d)| (*n, *d, 0o755)).collect();
    archive_with_modes(&files)
}

fn archive_with_modes(files: &[(&str, &[u8], u32)]) -> Vec<u8> {
    let gz = flate2::write::GzEncoder::new(Vec::new(), flate2::Compression::default());
    let mut builder = tar::Builder::new(gz);
    for (name, data, mode) in files {
        let mut header = tar::Header::new_gnu();
        if name.ends_with('/') {
            header.set_entry_type(tar::EntryType::Directory);
        }
        header.set_size(data.len() as u64);
        header.set_mode(*mode);
        header.set_cksum();
        builder.append_data(&mut header, name, *data).unwrap();
    }
    let mut gz = builder.into_inner().unwrap();
    gz.flush().unwrap();
    gz.finish().unwrap()
}

fn hex(bytes: &[u8]) -> String {
    sha2::Sha256::digest(bytes).iter().map(|b| format!("{b:02x}")).collect()
}

#[test]
fn plain_programs_are_taken_as_they_are() {
    let bytes = b"program";
    assert_eq!(
        install_bytes_into_dir("https://x/prog", bytes, &None).unwrap(),
        Some(bytes.to_vec())
    );
    let digest = Some(hex(bytes).to_uppercase());
    assert_eq!(
        install_bytes_into_dir("https://x/prog", bytes, &digest).unwrap(),
        Some(bytes.to_vec())
    );
    let wrong = Some(hex(b"other"));
    assert_eq!(install_bytes_into_dir("https://x/prog", bytes, &wrong).unwrap(), None);
}

#[test]
fn the_first_real_file_of_an_archive_is_taken() {
    let bytes = archive(&[
        ("bin/", b""),
        ("bin/._main", b"resource fork"),
        ("bin/main", b"program"),
        ("bin/other", b"other"),
    ]);
    for url in ["https://x/a.tar.gz", "https://x/a.tgz"] {
        assert_eq!(
            install_bytes_into_dir(url, &bytes, &Some(hex(&bytes))).unwrap(),
            Some(b"program".to_vec())
        );
    }
    assert_eq!(
        install_bytes_into_dir("https://x/a.bin", &bytes, &None).unwrap(),
        Some(bytes.clone())
    );
}

#[test]
fn the_first_executable_file_of_an_archive_is_taken() {
    let url = "https://x/a.tar.gz";
    let bytes = archive_with_modes(&[("README", b"r", 0o644), ("tool", b"b", 0o755)]);
    assert_eq!(install_bytes_into_dir(url, &bytes, &None).unwrap(), Some(b"b".to_vec()));
    let forks = archive_with_modes(&[("._tool", b"f", 0o755), ("a", b"a", 0o600), ("b", b"b", 0o010)]);
    assert_eq!(install_bytes_into_dir(url, &forks, &None).unwrap(), Some(b"b".to_vec()));
    let none = archive_with_modes(&[("a", b"a", 0o644), ("b", b"b", 0o644)]);
    assert_eq!(install_bytes_into_dir(url, &none, &None).unwrap(), Some(b"a".to_vec()));
}

#[test]
fn archives_without_files_give_nothing() {
    let bytes = archive(&[("bin/", b""), ("bin/._main", b"fork")]);
    assert_eq!(install_bytes_into_dir("https://x/a.tgz", &bytes, &None).unwrap(), None);
}

#[test]
fn broken_archives_are_errors() {
    assert!(install_bytes_into_dir("https://x/a.tar.gz", b"no archive", &None).is_err());
}

#[test]
fn digests_are_compared_without_case() {
    assert!(digest_matches(&None, "ab"));
    assert!(digest_matches(&Some("AB".to_string()), "ab"));
    assert!(!digest_matches(&Some("ac".to_string()), "ab"));
}

#[test]
fn the_registry_knows_programs() {
    let info = BinaryInfo {
        key: "linux-x86_64".to_string(),
        url: "https://x/prog".to_string(),
        sha256: None,
    };
    let entries = vec![
        RegistryEntry { name: "bare".to_string(), skills: Vec::new(), binaries: Vec::new() },
        RegistryEntry {
            name: "mofa-skills".to_string(),
            skills: list(&["mofa-fm"]),
            binaries: vec![info],
        },
    ];
    assert!(lookup_registry_binaries(&entries, "bare").is_none());
    assert!(lookup_registry_binaries(&entries, "nowhere").is_none());
    let found = lookup_registry_binaries(&entries, "mofa-fm").unwrap();
    assert_eq!(binary_for(found, "linux-x86_64").unwrap().0, "https://x/prog");
    assert!(binary_for(found, "darwin-aarch64").is_none());
}

#[test]
fn package_names_are_read() {
    let toml = "[package]\nname = \"mofa-podcast\"\nversion = \"0.4.5\"\n[[bin]]\nname=\"pod\"\n";
    assert_eq!(cargo_names(toml), list(&["mofa-podcast", "pod"]));
}

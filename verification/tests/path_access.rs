use octos_agent::access::{
    file_io_error, is_pdf, is_symlink_error, pdf_failure, reject_symlink, resolve_path, IoFailure,
    Resolution, ResolvedToolPath, ToolPathError, ToolPathScope,
};
use std::path::{Component, Path, PathBuf};

const UPLOADS: &str = "/tmp/octos-uploads";

/// A resolver like the host's: it takes the detours out of a path and looks which
/// directory the path lies in. Handles and names of uploads are given to it.
fn resolve(base: &str, known: &[(&str, &str, ToolPathScope)], path: &str) -> Resolution {
    if let Some((_, target, scope)) = known.iter().find(|(given, _, _)| *given == path) {
        return Ok(ResolvedToolPath { absolute: target.to_string(), scope: *scope });
    }
    let mut whole = PathBuf::new();
    for part in Path::new(base).join(path).components() {
        match part {
            Component::ParentDir => {
                whole.pop();
            }
            Component::CurDir => {}
            other => whole.push(other),
        }
    }
    let scope = if whole.starts_with(UPLOADS) {
        ToolPathScope::Upload
    } else if whole.starts_with(base) {
        ToolPathScope::Workspace
    } else if Path::new(path).is_absolute() {
        return Err(ToolPathError::OutsideAllowedRoots);
    } else {
        return Err(ToolPathError::Traversal);
    };
    Ok(ResolvedToolPath { absolute: whole.to_string_lossy().into_owned(), scope })
}

fn resolved(base: &str, path: &str) -> Result<String, String> {
    resolve_path(resolve(base, &[], path), path)
}

fn within(path: &str, base: &str) -> bool {
    Path::new(path).starts_with(base)
}

#[test]
fn test_file_io_error_symlink() {
    let err = IoFailure {
        code: Some(libc::ELOOP),
        not_found: false,
        permission_denied: false,
        text: "Too many levels of symbolic links (os error 40)".to_string(),
    };
    let result = file_io_error(err, "test.txt", Some(libc::ELOOP));
    assert!(!result.success);
    assert!(result.output.contains("Symlinks"));
}

#[test]
fn test_file_io_error_not_found() {
    let err = IoFailure {
        code: None,
        not_found: true,
        permission_denied: false,
        text: "no such file".to_string(),
    };
    let result = file_io_error(err, "missing.txt", Some(libc::ELOOP));
    assert!(!result.success);
    assert!(result.output.contains("File not found"));
}

#[test]
fn other_failures_are_told_as_they_are() {
    let err = IoFailure {
        code: Some(13),
        not_found: false,
        permission_denied: true,
        text: "denied".to_string(),
    };
    assert!(!is_symlink_error(&err, Some(libc::ELOOP)));
    let result = file_io_error(err, "locked.txt", Some(libc::ELOOP));
    assert!(!result.success);
    assert!(result.output.contains("denied"), "{}", result.output);
}

#[test]
fn without_a_number_a_denied_access_is_a_link() {
    let denied = IoFailure {
        code: None,
        not_found: false,
        permission_denied: true,
        text: "symlink rejected".to_string(),
    };
    assert!(is_symlink_error(&denied, None));
    assert!(!is_symlink_error(&denied, Some(libc::ELOOP)));
    assert_eq!(file_io_error(denied, "a", None).output, "Symlinks are not allowed");
}

#[test]
fn only_links_are_rejected() {
    let r = reject_symlink(Some(true)).unwrap();
    assert!(!r.success);
    assert_eq!(r.output, "Symlinks are not allowed");
    assert!(reject_symlink(Some(false)).is_none());
    assert!(reject_symlink(None).is_none());
}

#[test]
fn documents_are_known_by_their_first_bytes() {
    assert!(is_pdf(b"%PDF-1.7\n"));
    assert!(!is_pdf(b"%PDF"));
    assert!(!is_pdf(b"plain text"));
    assert!(!is_pdf(b""));
    assert!(pdf_failure("broken").contains("broken"));
}

#[test]
fn test_resolve_rejects_absolute_path() {
    let base = "/home/user/project";
    assert!(resolved(base, "/etc/passwd").is_err());
    assert!(resolved(base, "/home/user/project/../../../etc/shadow").is_err());
}

#[test]
fn test_resolve_allows_absolute_path_inside_upload_root() {
    let abs = format!("{UPLOADS}/abc-redbank-proposal.md");
    let path = resolved("/home/user/project", &abs)
        .expect("upload-tmpdir absolute paths must be accepted");
    assert!(path.starts_with(UPLOADS), "{path}");
}

#[test]
fn test_resolve_rejects_absolute_path_outside_upload_root() {
    let err = resolved("/home/user/project", "/tmp/not-uploads/secret.txt")
        .expect_err("paths outside both base_dir and upload_root must be rejected");
    assert!(err.contains("absolute paths are not allowed"), "{err}");
}

#[test]
fn test_resolve_blocks_parent_traversal() {
    let base = "/home/user/project";
    assert!(resolved(base, "../../../etc/passwd").is_err());
    assert!(resolved(base, "subdir/../../..").is_err());
    assert!(resolved(base, "foo/../../../secret").is_err());
}

#[test]
fn test_resolve_allows_valid_relative() {
    let p = resolved("/home/user/project", "src/main.rs").unwrap();
    assert_eq!(p, "/home/user/project/src/main.rs");
}

#[test]
fn test_resolve_allows_dot_segments_within_base() {
    let p = resolved("/home/user/project", "src/../src/lib.rs").unwrap();
    assert_eq!(p, "/home/user/project/src/lib.rs");
}

#[test]
fn test_resolve_allows_current_dir() {
    let p = resolved("/home/user/project", "./README.md").unwrap();
    assert_eq!(p, "/home/user/project/README.md");
}

#[test]
fn test_resolve_allows_deeply_nested() {
    let p = resolved("/home/user/project", "a/b/c/d/e/f.rs").unwrap();
    assert_eq!(p, "/home/user/project/a/b/c/d/e/f.rs");
}

#[test]
fn test_resolve_blocks_cross_profile_access() {
    let base = "/home/user/.octos/profiles/alice/data";

    assert!(resolved(base, "../../bob/data/sessions/secret").is_err());
    assert!(resolved(base, "../../../profiles/bob/data/episodes.db").is_err());
    assert!(resolved(base, "../../../skills/evil-skill/main").is_err());

    assert!(resolved(base, "skills/my-skill/main").is_ok());
    assert!(resolved(base, "sessions/chat-123.json").is_ok());
    assert!(resolved(base, "skill-output/report.pdf").is_ok());
}

#[test]
fn test_resolve_rejects_empty_path() {
    let result = resolved("/home/user/project", "");
    assert!(result.is_ok());
    assert_eq!(result.unwrap(), "/home/user/project");
}

#[test]
fn test_resolve_rejects_null_byte() {
    let base = "/home/user/project";
    let result = resolved(base, "file\0.txt");
    if let Ok(p) = &result {
        assert!(within(p, base));
    }
}

#[test]
fn test_resolve_rejects_windows_separators() {
    let base = "/home/user/project";
    let result = resolved(base, "..\\..\\etc\\passwd");
    if let Ok(p) = &result {
        assert!(within(p, base));
    }
}

#[test]
fn every_answer_of_the_resolver_is_told() {
    let base = "/home/user/project";
    assert_eq!(
        resolve_path(Err(ToolPathError::Traversal), "../x").unwrap_err(),
        "path outside working directory: ../x"
    );
    assert_eq!(
        resolve_path(Err(ToolPathError::OutsideAllowedRoots), "/etc/passwd").unwrap_err(),
        "absolute paths are not allowed outside the upload tmpdir: /etc/passwd"
    );
    assert_eq!(
        resolve_path(Err(ToolPathError::DecodeFailed), "pf/!").unwrap_err(),
        "path outside working directory: pf/!"
    );
    let known = [
        ("up/YWJj", "/tmp/octos-uploads/abc", ToolPathScope::Upload),
        ("pf/YWJj", "/home/user/.octos/abc", ToolPathScope::Profile),
        ("report.pdf", "/tmp/octos-uploads/report.pdf", ToolPathScope::Upload),
    ];
    for (path, target, _) in known {
        assert_eq!(resolve_path(resolve(base, &known, path), path).unwrap(), target);
    }
}

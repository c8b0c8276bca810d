//! Which files a tool may touch, and what it answers when it cannot.
use vstd::prelude::*;

use crate::context::{plain_result, ToolResult, ToolResultView};
use crate::text::Text;

verus! {

// ---------------------------------------------------------------------------
// Where a path leads
//
// The host resolves the paths that tools are given: handles of uploads and of
// profile files, absolute paths, the names of uploads, and paths in the
// workspace. What is done with its answer is decided here.

/// Where a path that a tool was given leads.
#[derive(Debug, Clone, Copy, PartialEq, Eq, Structural)]
pub enum ToolPathScope {
    Workspace,
    Upload,
    Profile,
}

/// Why a path is refused.
#[derive(Debug, Clone, Copy, PartialEq, Eq, Structural)]
pub enum ToolPathError {
    /// A relative path leaves the workspace.
    Traversal,
    /// An absolute path lies in none of the allowed directories.
    OutsideAllowedRoots,
    /// A handle cannot be read.
    DecodeFailed,
}

/// A path that a tool may use.
#[derive(Debug)]
pub struct ResolvedToolPath {
    pub absolute: String,
    pub scope: ToolPathScope,
}

/// What the host's resolver gives for a path.
pub type Resolution = Result<ResolvedToolPath, ToolPathError>;

/// The path that a resolution leads to, whatever its scope.
pub open spec fn target_of(seen: Resolution) -> Option<Text> {
    match seen {
        Ok(found) => Some(found.absolute@),
        Err(_) => None,
    }
}

/// The path that a tool may use for a path that it was given, from what the
/// resolver gave for it.
pub fn resolve_path(seen: Resolution, user_path: &str) -> (r: Result<String, String>)
    ensures
        match seen {
            Ok(found) => r == Ok::<String, String>(found.absolute),
            Err(ToolPathError::Traversal) | Err(ToolPathError::DecodeFailed) => {
                r matches Err(text) && text@ == "path outside working directory: "@ + user_path@
            },
            Err(ToolPathError::OutsideAllowedRoots) => {
                r matches Err(text) && text@
                    == "absolute paths are not allowed outside the upload tmpdir: "@ + user_path@
            },
        },
{
    match seen {
        Ok(found) => Ok(found.absolute),
        Err(ToolPathError::Traversal) | Err(ToolPathError::DecodeFailed) => {
            let mut text = "path outside working directory: ".to_owned();
            text.append(user_path);
            Err(text)
        },
        Err(ToolPathError::OutsideAllowedRoots) => {
            let mut text = "absolute paths are not allowed outside the upload tmpdir: ".to_owned();
            text.append(user_path);
            Err(text)
        },
    }
}

// ---------------------------------------------------------------------------
// Reading and writing

/// An error of the file system.
#[derive(Debug)]
pub struct IoFailure {
    /// The number that the system gave.
    pub code: Option<i32>,
    pub not_found: bool,
    pub permission_denied: bool,
    pub text: String,
}

/// A link was in the way of an access that follows none. Where the system has no
/// number for that, the access is denied instead.
pub open spec fn link_refused(failure: IoFailure, link_code: Option<i32>) -> bool {
    match link_code {
        Some(number) => failure.code == Some(number),
        None => failure.permission_denied,
    }
}

/// Whether a link was in the way of an access that follows none. `link_code` is
/// the number by which the system says so, if it has one.
pub fn is_symlink_error(failure: &IoFailure, link_code: Option<i32>) -> (r: bool)
    ensures
        r == link_refused(*failure, link_code),
{
    match link_code {
        Some(number) => match failure.code {
            Some(code) => code == number,
            None => false,
        },
        None => failure.permission_denied,
    }
}

/// What a tool answers when it cannot reach a file.
pub open spec fn io_answer(failure: IoFailure, path: Text, link_code: Option<i32>) -> ToolResultView {
    if link_refused(failure, link_code) {
        plain_result(false, "Symlinks are not allowed"@)
    } else if failure.not_found {
        plain_result(false, "File not found: "@ + path)
    } else {
        plain_result(false, "Failed to access "@ + path + ": "@ + failure.text@)
    }
}

/// What a tool answers when it cannot reach a file.
pub fn file_io_error(failure: IoFailure, display_path: &str, link_code: Option<i32>) -> (r: ToolResult)
    ensures
        r@ == io_answer(failure, display_path@, link_code),
{
    if is_symlink_error(&failure, link_code) {
        return ToolResult::plain(false, "Symlinks are not allowed".to_owned());
    }
    if failure.not_found {
        let mut text = "File not found: ".to_owned();
        text.append(display_path);
        return ToolResult::plain(false, text);
    }
    let mut text = "Failed to access ".to_owned();
    text.append(display_path);
    text.append(": ");
    text.append(failure.text.as_str());
    ToolResult::plain(false, text)
}

/// What a tool answers at a path, given whether it is a link: nothing if it is
/// none or if that is not known.
pub fn reject_symlink(is_link: Option<bool>) -> (r: Option<ToolResult>)
    ensures
        match r {
            Some(answer) => is_link == Some(true) && answer@ == plain_result(
                false,
                "Symlinks are not allowed"@,
            ),
            None => is_link != Some(true),
        },
{
    match is_link {
        Some(true) => Some(ToolResult::plain(false, "Symlinks are not allowed".to_owned())),
        _ => None,
    }
}

/// The bytes begin as those of a PDF file do.
pub open spec fn pdf_head(bytes: Seq<u8>) -> bool {
    &&& bytes.len() >= 5
    &&& bytes[0] == 0x25
    &&& bytes[1] == 0x50
    &&& bytes[2] == 0x44
    &&& bytes[3] == 0x46
    &&& bytes[4] == 0x2d
}

/// Whether a file that begins with these bytes is a PDF file, whose text must be
/// extracted before it can be read.
pub fn is_pdf(head: &[u8]) -> (r: bool)
    ensures
        r == pdf_head(head@),
{
    head.len() >= 5 && head[0] == 0x25 && head[1] == 0x50 && head[2] == 0x44 && head[3] == 0x46
        && head[4] == 0x2d
}

/// What is said of a PDF file whose text could not be extracted.
pub fn pdf_failure(reason: &str) -> (r: String)
    ensures
        r@ == "pdf extraction failed: "@ + reason@,
{
    let mut r = "pdf extraction failed: ".to_owned();
    r.append(reason);
    r
}

} // verus!

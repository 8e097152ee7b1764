//! Changing the workspace folder: which paths are accepted and what is reported.
//! Creating the folder and saving the setting is the caller's.
use vstd::prelude::*;

use crate::paths::is_abs;
use crate::text::{chars_of, push_str, to_string};

verus! {

/// Switches the workspace folder.
pub struct SetWorkspace;

impl SetWorkspace {
    pub fn name(&self) -> (r: &'static str)
        ensures
            r@ == "set_workspace"@,
    {
        "set_workspace"
    }

    pub fn description(&self) -> (r: &'static str)
        ensures
            r@ == crate::tools::tool_description(crate::tools::ToolKind::SetWorkspace),
    {
        "워크스페이스(작업 폴더)를 변경한다. 사용자가 작업 공간을 바꿔달라고 할 때만 사용. 폴더가 없으면 만든다."
    }
}

/// A new workspace must be an absolute path.
pub fn check_new_workspace(path: &str) -> (r: Result<(), String>)
    ensures
        match r {
            Ok(()) => is_abs(path@),
            Err(e) => !is_abs(path@) && e@ == "절대경로가 필요함: "@ + path@,
        },
{
    let v = chars_of(path);
    if crate::paths::is_absolute(v.as_slice()) {
        return Ok(());
    }
    let mut r = to_string("절대경로가 필요함: ");
    push_str(&mut r, path);
    Err(r)
}

/// The refusal when the folder cannot be created (`reason` is the system's).
pub fn create_failed_error(path: &str, reason: &str) -> (r: String)
    ensures
        r@ == "워크스페이스 생성 실패: "@ + path@ + " ("@ + reason@ + ")"@,
{
    let mut r = to_string("워크스페이스 생성 실패: ");
    push_str(&mut r, path);
    push_str(&mut r, " (");
    push_str(&mut r, reason);
    push_str(&mut r, ")");
    r
}

/// The report of a changed workspace.
pub fn set_workspace_report(path: &str) -> (r: String)
    ensures
        r@ == "워크스페이스 변경 완료: "@ + path@,
{
    let mut r = to_string("워크스페이스 변경 완료: ");
    push_str(&mut r, path);
    r
}

/// The workspace in use: the configured folder when it is set (not blank) and
/// exists as a folder, else the home folder.
pub fn workspace_in_use(configured: &str, configured_is_dir: bool, home: &str) -> (r: String)
    ensures
        r@ == if crate::text::trim(configured@).len() > 0 && configured_is_dir {
            configured@
        } else {
            home@
        },
{
    let t = crate::text::trim_str(configured);
    if crate::history::char_count(t.as_str()) > 0 && configured_is_dir {
        to_string(configured)
    } else {
        to_string(home)
    }
}

} // verus!

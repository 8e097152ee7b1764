//! Screen capture: which monitor, where the picture is saved, and the report. The
//! capture itself is the caller's.
use vstd::prelude::*;

use crate::paths::{ensure_spec, join_spec, path_error_text};
use crate::text::{decimal, push_str, to_string, u64_to_string};

verus! {

/// Captures a monitor into a PNG.
pub struct ScreenCapture;

impl ScreenCapture {
    pub fn name(&self) -> (r: &'static str)
        ensures
            r@ == "screen_capture"@,
    {
        "screen_capture"
    }

    pub fn description(&self) -> (r: &'static str)
        ensures
            r@ == crate::tools::tool_description(crate::tools::ToolKind::ScreenCapture),
    {
        "현재 화면을 캡처해 PNG 파일로 저장한다. 결과로 저장 경로를 돌려준다."
    }
}

/// The monitor to capture: `index` of the `total` monitors found; an index past
/// the last is refused.
pub fn pick_monitor(index: u64, total: u64) -> (r: Result<u64, String>)
    ensures
        match r {
            Ok(i) => index < total && i == index,
            Err(e) => index >= total && e@ == "모니터 "@ + decimal(index as nat) + " 없음 (총 "@
                + decimal(total as nat) + "개)"@,
        },
{
    if index < total {
        return Ok(index);
    }
    let mut r = to_string("모니터 ");
    let a = u64_to_string(index);
    push_str(&mut r, a.as_str());
    push_str(&mut r, " 없음 (총 ");
    let b = u64_to_string(total);
    push_str(&mut r, b.as_str());
    push_str(&mut r, "개)");
    Err(r)
}

/// Where a capture is saved: the given path, else `captures/capture_<stamp>.png`
/// under the workspace; it must lie in the workspace.
pub open spec fn capture_output_spec(output: Option<Seq<char>>, ws: Seq<char>, stamp: Seq<char>) -> Result<
    Seq<char>,
    Seq<char>,
> {
    let o = match output {
        Some(p) => p,
        None => join_spec(join_spec(ws, "captures"@), "capture_"@ + stamp + ".png"@),
    };
    match ensure_spec(o, ws) {
        Ok(_) => Ok(o),
        Err(e) => Err(path_error_text(e)),
    }
}

/// The folder default captures go to.
pub fn captures_dir(ws: &str) -> (r: String)
    ensures
        r@ == join_spec(ws@, "captures"@),
{
    crate::paths::join(ws, "captures")
}

pub fn capture_output(output: Option<&str>, ws: &str, stamp: &str) -> (r: Result<String, String>)
    ensures
        match r {
            Ok(p) => capture_output_spec(crate::tools::image::opt_str_view(output), ws@, stamp@)
                == Ok::<Seq<char>, Seq<char>>(p@),
            Err(e) => capture_output_spec(crate::tools::image::opt_str_view(output), ws@, stamp@)
                == Err::<Seq<char>, Seq<char>>(e@),
        },
{
    let o = match output {
        Some(p) => to_string(p),
        None => {
            let dir = captures_dir(ws);
            let mut name = to_string("capture_");
            push_str(&mut name, stamp);
            push_str(&mut name, ".png");
            crate::paths::join(dir.as_str(), name.as_str())
        },
    };
    match crate::paths::ensure_in_workspace(o.as_str(), ws) {
        Ok(()) => Ok(o),
        Err(e) => Err(e.message()),
    }
}

/// The report of a saved capture.
pub fn capture_report(path: &str, width: u32, height: u32) -> (r: String)
    ensures
        r@ == "캡처 완료: "@ + path@ + " ("@ + decimal(width as nat) + "x"@ + decimal(height as nat)
            + " px)"@,
{
    let mut r = to_string("캡처 완료: ");
    push_str(&mut r, path);
    push_str(&mut r, " (");
    let a = u64_to_string(width as u64);
    push_str(&mut r, a.as_str());
    push_str(&mut r, "x");
    let b = u64_to_string(height as u64);
    push_str(&mut r, b.as_str());
    push_str(&mut r, " px)");
    r
}

} // verus!

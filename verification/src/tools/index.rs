//! Adding a folder to the local search index: which folder, the refusals, and the
//! report. Running the indexer is the caller's.
use vstd::prelude::*;

use crate::localsearch::IndexSummary;
use crate::paths::{is_abs, join_spec};
use crate::text::{decimal, push_str, to_string, u64_to_string};

verus! {

/// Adds a folder's documents to the search index.
pub struct IndexFolder;

impl IndexFolder {
    pub fn name(&self) -> (r: &'static str)
        ensures
            r@ == "index_folder"@,
    {
        "index_folder"
    }

    pub fn description(&self) -> (r: &'static str)
        ensures
            r@ == crate::tools::tool_description(crate::tools::ToolKind::IndexFolder),
    {
        "지정한 폴더의 문서를 로컬 검색 색인에 추가한다 (pdf/docx/txt/md/csv). 인덱싱 후 그 폴더 내용을 자연어로 검색할 수 있다. path 에 폴더 경로를 준다."
    }
}

/// The folder to index: an absolute path as given, a relative one read against the
/// workspace (reading is allowed outside the workspace).
pub fn index_target(raw: &str, ws: &str) -> (r: String)
    ensures
        r@ == if is_abs(raw@) {
            raw@
        } else {
            join_spec(ws@, raw@)
        },
{
    crate::paths::absorb_into_workspace(raw, ws)
}

/// The refusal of a path that is not a folder.
pub fn not_a_folder_error(path: &str) -> (r: String)
    ensures
        r@ == "폴더가 아니거나 존재하지 않습니다: "@ + path@ + ". 이 사실을 사용자에게 알리세요."@,
{
    let mut r = to_string("폴더가 아니거나 존재하지 않습니다: ");
    push_str(&mut r, path);
    push_str(&mut r, ". 이 사실을 사용자에게 알리세요.");
    r
}

/// The refusal when no search engine is configured.
pub fn not_configured_error() -> (r: String)
    ensures
        r@ == "로컬 검색이 아직 구성되지 않았습니다 (검색 엔진 경로 미설정). 이 사실을 사용자에게 그대로 알리세요."@,
{
    to_string("로컬 검색이 아직 구성되지 않았습니다 (검색 엔진 경로 미설정). 이 사실을 사용자에게 그대로 알리세요.")
}

/// The report of a finished indexing run.
pub fn index_report(s: &IndexSummary, path: &str) -> (r: String)
    ensures
        r@ == "인덱싱 완료: "@ + decimal(s.indexed as nat) + " chunks (건너뜀 "@ + decimal(
            s.skipped as nat,
        ) + ", 오류 "@ + decimal(s.errors as nat) + "). 이제 '"@ + path@ + "' 내용을 검색할 수 있습니다."@,
{
    let mut r = to_string("인덱싱 완료: ");
    let a = u64_to_string(s.indexed);
    push_str(&mut r, a.as_str());
    push_str(&mut r, " chunks (건너뜀 ");
    let b = u64_to_string(s.skipped);
    push_str(&mut r, b.as_str());
    push_str(&mut r, ", 오류 ");
    let c = u64_to_string(s.errors);
    push_str(&mut r, c.as_str());
    push_str(&mut r, "). 이제 '");
    push_str(&mut r, path);
    push_str(&mut r, "' 내용을 검색할 수 있습니다.");
    r
}

} // verus!

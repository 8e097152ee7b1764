//! Per-turn tool routing: keywords of the user's utterance hide the tools that
//! compete with a clearly stated intent, so that a small model cannot pick them.
use vstd::prelude::*;

use crate::text::{
    chars_of, contains_any, contains_chars, has_any, has_sub, push_char, strs_view,
};

verus! {

pub open spec fn bg_keywords() -> Seq<Seq<char>> {
    seq![
        "배경제거"@, "배경 제거"@, "배경을 제거"@, "누끼"@, "배경 빼"@, "배경을 빼"@,
        "배경 없애"@, "배경을 없애"@, "배경 지워"@, "배경을 지워"@,
    ]
}

pub open spec fn dictation_excluded() -> Seq<Seq<char>> {
    seq![
        "read_file"@, "list_dir"@, "search_files"@, "pdf_extract_text"@, "move_path"@,
        "rename_file"@, "copy_path"@, "delete_path"@,
    ]
}

pub open spec fn workspace_keywords() -> Seq<Seq<char>> {
    seq!["워크스페이스"@, "작업 폴더"@, "작업폴더"@, "기본 폴더"@]
}

pub open spec fn capture_keywords() -> Seq<Seq<char>> {
    seq!["화면"@, "캡처"@, "캡쳐"@, "스크린"@, "찍"@]
}

pub open spec fn write_verbs() -> Seq<Seq<char>> {
    seq!["적어"@, "저장"@, "기록"@, "작성"@, "메모"@, "써"@]
}

pub open spec fn read_hints() -> Seq<Seq<char>> {
    seq!["읽"@, "요약"@, "번역"@, "분석"@, "정리"@, "내용"@, "보여"@, "뭐"@, "무엇"@, "어떤"@]
}

pub open spec fn delete_verbs() -> Seq<Seq<char>> {
    seq!["지워"@, "지우"@, "삭제"@]
}

pub open spec fn rename_verbs() -> Seq<Seq<char>> {
    seq!["바꿔"@, "바꾸"@, "변경"@]
}

/// "압축 풀어/해제": an archive-extraction request.
pub open spec fn extract_intent(t: Seq<char>) -> bool {
    has_sub(t, "압축"@) && (has_sub(t, "풀"@) || has_sub(t, "해제"@))
}

/// "압축해/압축하": an archive-creation request.
pub open spec fn compress_intent(t: Seq<char>) -> bool {
    has_sub(t, "압축해"@) || has_sub(t, "압축하"@)
}

pub open spec fn delete_intent(t: Seq<char>) -> bool {
    has_any(t, delete_verbs())
}

/// "이름 ... 바꿔/변경" without a dictation marker ("라고").
pub open spec fn rename_intent(t: Seq<char>) -> bool {
    has_sub(t, "이름"@) && has_any(t, rename_verbs()) && !has_sub(t, "라고"@)
}

/// One step of the quote-stripping scan: (closing quote awaited, character kept).
pub open spec fn quote_step(closing: Option<char>, c: char) -> (Option<char>, Option<char>) {
    match closing {
        Some(q) => if c == q {
            (None, None)
        } else {
            (Some(q), None)
        },
        None => if c == '\'' || c == '"' {
            (Some(c), None)
        } else if c == '“' {
            (Some('”'), None)
        } else if c == '‘' {
            (Some('’'), None)
        } else {
            (None, Some(c))
        },
    }
}

pub open spec fn quote_state(s: Seq<char>) -> (Seq<char>, Option<char>)
    decreases s.len(),
{
    if s.len() == 0 {
        (Seq::empty(), None)
    } else {
        let (o, cl) = quote_state(s.drop_last());
        let (cl2, kept) = quote_step(cl, s.last());
        (
            match kept {
                Some(c) => o.push(c),
                None => o,
            },
            cl2,
        )
    }
}

/// `s` with every quoted span ('…', "…", “…”, ‘…’) removed, quotes included.
/// An unclosed quote removes the rest of the text.
pub open spec fn strip_quoted_spec(s: Seq<char>) -> Seq<char> {
    quote_state(s).0
}

/// A dictation request ("X에 '…'라고 적어줘"): outside the quotes there is "라고",
/// a write verb, and no reading cue.
pub open spec fn dictation_write(t: Seq<char>) -> bool {
    let u = strip_quoted_spec(t);
    has_sub(u, "라고"@) && has_any(u, write_verbs()) && !has_any(u, read_hints())
}

/// The tools hidden for a turn whose user utterance is `t`.
pub open spec fn excluded_tools(t: Seq<char>) -> Seq<Seq<char>> {
    let base = if has_any(t, bg_keywords()) {
        seq!["image_transform"@]
    } else if dictation_write(t) {
        dictation_excluded()
    } else {
        let r = if rename_intent(t) {
            seq!["write_file"@, "image_transform"@]
        } else {
            Seq::empty()
        };
        let z = if extract_intent(t) {
            seq!["zip_create"@]
        } else if delete_intent(t) || compress_intent(t) {
            seq!["zip_extract"@]
        } else {
            Seq::empty()
        };
        r + z
    };
    let w = if !has_any(t, workspace_keywords()) {
        seq!["set_workspace"@]
    } else {
        Seq::empty()
    };
    let c = if !has_any(t, capture_keywords()) {
        seq!["screen_capture"@]
    } else {
        Seq::empty()
    };
    base + w + c
}

fn has_lit(t: &[char], lit: &str) -> (r: bool)
    ensures
        r == has_sub(t@, lit@),
{
    let n = chars_of(lit);
    contains_chars(t, n.as_slice())
}

/// An archive-extraction request.
pub fn is_extract_intent(user_text: &[char]) -> (r: bool)
    ensures
        r == extract_intent(user_text@),
{
    has_lit(user_text, "압축") && (has_lit(user_text, "풀") || has_lit(user_text, "해제"))
}

/// An archive-creation request (extraction requests are recognised first).
pub fn is_compress_intent(user_text: &[char]) -> (r: bool)
    ensures
        r == compress_intent(user_text@),
{
    has_lit(user_text, "압축해") || has_lit(user_text, "압축하")
}

/// A deletion request.
pub fn is_delete_intent(user_text: &[char]) -> (r: bool)
    ensures
        r == delete_intent(user_text@),
{
    let verbs: [&str; 3] = ["지워", "지우", "삭제"];
    assert(strs_view(verbs@) =~= delete_verbs());
    contains_any(user_text, &verbs)
}

/// A file-renaming request.
pub fn is_rename_intent(user_text: &[char]) -> (r: bool)
    ensures
        r == rename_intent(user_text@),
{
    let verbs: [&str; 3] = ["바꿔", "바꾸", "변경"];
    assert(strs_view(verbs@) =~= rename_verbs());
    has_lit(user_text, "이름") && contains_any(user_text, &verbs) && !has_lit(user_text, "라고")
}

/// A dictation write request.
pub fn is_dictation_write(user_text: &[char]) -> (r: bool)
    ensures
        r == dictation_write(user_text@),
{
    let writes: [&str; 6] = ["적어", "저장", "기록", "작성", "메모", "써"];
    let reads: [&str; 10] = ["읽", "요약", "번역", "분석", "정리", "내용", "보여", "뭐", "무엇", "어떤"];
    assert(strs_view(writes@) =~= write_verbs());
    assert(strs_view(reads@) =~= read_hints());
    let t = strip_quoted_chars(user_text);
    has_lit(t.as_slice(), "라고") && contains_any(t.as_slice(), &writes) && !contains_any(
        t.as_slice(),
        &reads,
    )
}

fn strip_quoted_chars(s: &[char]) -> (r: Vec<char>)
    ensures
        r@ == strip_quoted_spec(s@),
{
    let mut out: Vec<char> = Vec::new();
    let mut closing: Option<char> = None;
    let mut i: usize = 0;
    while i < s.len()
        invariant
            i <= s@.len(),
            (out@, closing) == quote_state(s@.take(i as int)),
        decreases s.len() - i,
    {
        let ch = s[i];
        assert(s@.take(i + 1).drop_last() =~= s@.take(i as int));
        match closing {
            Some(q) => {
                if ch == q {
                    closing = None;
                }
            },
            None => {
                if ch == '\'' || ch == '"' {
                    closing = Some(ch);
                } else if ch == '“' {
                    closing = Some('”');
                } else if ch == '‘' {
                    closing = Some('’');
                } else {
                    out.push(ch);
                }
            },
        }
        i += 1;
    }
    assert(s@.take(s@.len() as int) =~= s@);
    out
}

/// Removes the quoted spans of `s` ('…', "…", “…”, ‘…’), so that dictated content
/// does not sway the intent tests.
pub fn strip_quoted(s: &str) -> (r: String)
    ensures
        r@ == strip_quoted_spec(s@),
{
    let v = chars_of(s);
    let o = strip_quoted_chars(v.as_slice());
    crate::text::string_of(o.as_slice())
}

/// The tools to hide for a turn whose user utterance is `user_text`.
pub fn tools_to_exclude(user_text: &str) -> (r: Vec<&'static str>)
    ensures
        strs_view(r@) == excluded_tools(user_text@),
{
    let t = chars_of(user_text);
    let ts = t.as_slice();
    let bg: [&str; 10] = [
        "배경제거", "배경 제거", "배경을 제거", "누끼", "배경 빼", "배경을 빼", "배경 없애",
        "배경을 없애", "배경 지워", "배경을 지워",
    ];
    assert(strs_view(bg@) =~= bg_keywords());
    let mut out: Vec<&'static str> = Vec::new();
    if contains_any(ts, &bg) {
        out.push("image_transform");
    } else if is_dictation_write(ts) {
        out.push("read_file");
        out.push("list_dir");
        out.push("search_files");
        out.push("pdf_extract_text");
        out.push("move_path");
        out.push("rename_file");
        out.push("copy_path");
        out.push("delete_path");
    } else {
        if is_rename_intent(ts) {
            out.push("write_file");
            out.push("image_transform");
        }
        if is_extract_intent(ts) {
            out.push("zip_create");
        } else if is_delete_intent(ts) {
            out.push("zip_extract");
        } else if is_compress_intent(ts) {
            out.push("zip_extract");
        }
    }
    let ghost base = strs_view(out@);
    let ws: [&str; 4] = ["워크스페이스", "작업 폴더", "작업폴더", "기본 폴더"];
    assert(strs_view(ws@) =~= workspace_keywords());
    if !contains_any(ts, &ws) {
        out.push("set_workspace");
    }
    let ghost mid = strs_view(out@);
    let cap: [&str; 5] = ["화면", "캡처", "캡쳐", "스크린", "찍"];
    assert(strs_view(cap@) =~= capture_keywords());
    if !contains_any(ts, &cap) {
        out.push("screen_capture");
    }
    assert(strs_view(out@) =~= excluded_tools(user_text@));
    out
}

/// The names `excluded_tools` can list: `set_workspace` (13 characters) comes
/// right after the intent-dependent names, only when no work-folder keyword occurs;
/// no other name has 13 characters.
proof fn lemma_excluded_names(t: Seq<char>, i: int)
    ensures
        0 <= i < excluded_tools(t).len() && excluded_tools(t)[i].len() == 13 ==> !has_any(
            t,
            workspace_keywords(),
        ) && excluded_tools(t)[i] == "set_workspace"@,
        !has_any(t, workspace_keywords()) ==> excluded_tools(t).contains("set_workspace"@),
{
    reveal_strlit("set_workspace");
    reveal_strlit("screen_capture");
    reveal_strlit("image_transform");
    reveal_strlit("write_file");
    reveal_strlit("zip_create");
    reveal_strlit("zip_extract");
    reveal_strlit("read_file");
    reveal_strlit("list_dir");
    reveal_strlit("search_files");
    reveal_strlit("pdf_extract_text");
    reveal_strlit("move_path");
    reveal_strlit("rename_file");
    reveal_strlit("copy_path");
    reveal_strlit("delete_path");
    let e = excluded_tools(t);
    let c = if !has_any(t, capture_keywords()) {
        seq!["screen_capture"@]
    } else {
        Seq::<Seq<char>>::empty()
    };
    let n = e.len() - c.len();
    if !has_any(t, workspace_keywords()) {
        assert(e[n - 1] == "set_workspace"@);
    }
}

/// The work-folder tool stays offered exactly when the user speaks of the work
/// folder: `set_workspace` is hidden if and only if none of "워크스페이스",
/// "작업 폴더", "작업폴더" and "기본 폴더" occurs in the utterance.
pub proof fn law_set_workspace_hidden_unless_named(t: Seq<char>)
    ensures
        excluded_tools(t).contains("set_workspace"@) <==> !(has_sub(t, "워크스페이스"@)
            || has_sub(t, "작업 폴더"@) || has_sub(t, "작업폴더"@) || has_sub(t, "기본 폴더"@)),
{
    reveal_strlit("set_workspace");
    let sw = "set_workspace"@;
    let e = excluded_tools(t);
    let named = has_any(t, workspace_keywords());
    assert forall|i: int| 0 <= i < e.len() && (#[trigger] e[i]).len() == 13 implies !named
        && e[i] == sw by {
        lemma_excluded_names(t, i);
    }
    if !named {
        lemma_excluded_names(t, -1);
    }
    let wk = workspace_keywords();
    if has_any(t, wk) {
        let k = choose|k: int| 0 <= k < wk.len() && has_sub(t, wk[k]);
        assert(k == 0 || k == 1 || k == 2 || k == 3);
    }
    if has_sub(t, "워크스페이스"@) {
        assert(has_sub(t, wk[0]));
    }
    if has_sub(t, "작업 폴더"@) {
        assert(has_sub(t, wk[1]));
    }
    if has_sub(t, "작업폴더"@) {
        assert(has_sub(t, wk[2]));
    }
    if has_sub(t, "기본 폴더"@) {
        assert(has_sub(t, wk[3]));
    }
}

} // verus!

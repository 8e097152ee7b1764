//! Deterministic answers for turns the model ends without one, and the file name
//! hints read from a request.
//!
//! When the final model call comes back empty, the agent still owes the user a
//! sentence: a question about where a missing file is, or an honest account of the
//! last tool error.
use vstd::prelude::*;

use crate::localsearch::{first_pos, lemma_first_sub_unique, second_piece};
use crate::models::{msgs_view, ChatMessage, MessageView, Role};
use crate::paths::{components, split_components};
use crate::text::{
    chars_of, clip, clip_spec, find_chars, has_sub, is_ascii_alnum, push_chars, push_str,
    starts_with, string_of, string_of_range, sub_at, to_string, trim, trim_end, trim_start,
    alnum,
};

verus! {

// ---------------------------------------------------------------------------
// Pieces of a text
// ---------------------------------------------------------------------------

/// `s.split(m).next()`: the text before the first `m` (all of it when there is none).
pub open spec fn first_piece(s: Seq<char>, m: Seq<char>) -> Seq<char> {
    if has_sub(s, m) {
        s.take(first_pos(s, m))
    } else {
        s
    }
}

/// `s.split(m).nth(1)` (see [`second_piece`]).
pub fn piece_after(s: &[char], m: &[char]) -> (r: Option<Vec<char>>)
    ensures
        match r {
            Some(p) => second_piece(s@, m@) == Some(p@),
            None => second_piece(s@, m@) is None,
        },
{
    let p = match find_chars(s, m) {
        Some(p) => p,
        None => return None,
    };
    proof {
        lemma_first_sub_unique(s@, m@, p as int);
    }
    let sl = s.len();
    assert(p + m@.len() <= s@.len());
    let start = p + m.len();
    let rest = crate::paths::slice_to_vec(s, start, sl);
    assert(rest@ =~= s@.skip(start as int));
    match find_chars(rest.as_slice(), m) {
        Some(q) => {
            proof {
                lemma_first_sub_unique(rest@, m@, q as int);
            }
            let piece = crate::paths::slice_to_vec(rest.as_slice(), 0, q);
            assert(piece@ =~= rest@.take(q as int));
            Some(piece)
        },
        None => Some(rest),
    }
}

/// `s.split(m).next()`.
pub fn piece_before(s: &[char], m: &[char]) -> (r: Vec<char>)
    ensures
        r@ == first_piece(s@, m@),
{
    match find_chars(s, m) {
        Some(p) => {
            proof {
                lemma_first_sub_unique(s@, m@, p as int);
            }
            let r = crate::paths::slice_to_vec(s, 0, p);
            assert(r@ =~= s@.take(p as int));
            r
        },
        None => crate::paths::slice_to_vec(s, 0, s.len()),
    }
}

/// `str::trim` on characters.
pub fn trim_chars(s: &[char]) -> (r: Vec<char>)
    ensures
        r@ == trim(s@),
{
    let k = crate::text::trim_end_len(s, s.len());
    assert(s@.take(s@.len() as int) =~= s@);
    let st = crate::text::trim_start_pos(s, 0, k);
    assert(s@.subrange(0, k as int) =~= s@.take(k as int));
    crate::paths::slice_to_vec(s, st, k)
}

/// `str::trim_start` on characters.
pub fn trim_start_chars(s: &[char]) -> (r: Vec<char>)
    ensures
        r@ == trim_start(s@),
{
    let st = crate::text::trim_start_pos(s, 0, s.len());
    assert(s@.subrange(0, s@.len() as int) =~= s@);
    crate::paths::slice_to_vec(s, st, s.len())
}

/// The file name of a path (`Path::file_name`): its last component, none when the
/// path has no component or ends in `..`.
pub open spec fn path_file_name(p: Seq<char>) -> Option<Seq<char>> {
    let cs = components(p);
    if cs.len() == 0 || cs.last() == seq!['.', '.'] {
        None
    } else {
        Some(cs.last())
    }
}

pub fn file_name_opt(p: &[char]) -> (r: Option<Vec<char>>)
    ensures
        match r {
            Some(n) => path_file_name(p@) == Some(n@),
            None => path_file_name(p@) is None,
        },
{
    let cs = split_components(p);
    let ghost cv = cs@.map_values(|c: Vec<char>| c@);
    if cs.len() == 0 {
        return None;
    }
    let last = &cs[cs.len() - 1];
    assert(cv.last() == last@);
    if last.len() == 2 && last[0] == '.' && last[1] == '.' {
        assert(last@ =~= seq!['.', '.']);
        return None;
    }
    assert(last@ != seq!['.', '.']) by {
        if last@.len() == 2 {
            assert(last@[0] != '.' || last@[1] != '.');
        }
    }
    Some(crate::paths::slice_to_vec(last.as_slice(), 0, last.len()))
}

// ---------------------------------------------------------------------------
// File names in a request
// ---------------------------------------------------------------------------

/// Characters a file name token may hold: Unicode letters and digits, `_`, `-` and
/// Hangul syllables.
pub open spec fn name_char(c: char) -> bool {
    alnum(c) || c == '_' || c == '-' || ('가' <= c && c <= '힣')
}

/// Start of the run of name characters that ends at `i`.
pub open spec fn head_start(t: Seq<char>, i: int) -> int
    decreases i,
{
    if i > 0 && name_char(t[i - 1]) {
        head_start(t, i - 1)
    } else {
        i
    }
}

/// The file name token ending in `.{ext}` at the first occurrence of `.{ext}` in
/// `text`: none when an ASCII letter or digit follows the extension (`a.pdfx`) or
/// when no name characters precede it. A Korean particle may follow (`앨범.pdf로`).
pub open spec fn filename_with_ext_spec(text: Seq<char>, ext: Seq<char>) -> Option<Seq<char>> {
    let needle = seq!['.'] + ext;
    if !has_sub(text, needle) {
        None
    } else {
        let pos = first_pos(text, needle);
        let end = pos + needle.len();
        if end < text.len() && is_ascii_alnum(text[end]) {
            None
        } else if head_start(text, pos) == pos {
            None
        } else {
            Some(text.subrange(head_start(text, pos), pos) + needle)
        }
    }
}

proof fn lemma_head_start(t: Seq<char>, i: int)
    requires
        0 <= i <= t.len(),
    ensures
        0 <= head_start(t, i) <= i,
    decreases i,
{
    if i > 0 && name_char(t[i - 1]) {
        lemma_head_start(t, i - 1);
    }
}

fn is_name_char(c: char) -> (r: bool)
    ensures
        r == name_char(c),
{
    crate::text::is_alphanumeric(c) || c == '_' || c == '-' || ('가' <= c && c <= '힣')
}

/// The file name with extension `ext` mentioned in `text` ("앨범사진.pdf로 만들어줘"
/// gives "앨범사진.pdf").
pub fn filename_with_ext(text: &str, ext: &str) -> (r: Option<String>)
    ensures
        match r {
            Some(n) => filename_with_ext_spec(text@, ext@) == Some(n@),
            None => filename_with_ext_spec(text@, ext@) is None,
        },
{
    let v = chars_of(text);
    let mut needle: Vec<char> = Vec::new();
    needle.push('.');
    let ev = chars_of(ext);
    let mut i: usize = 0;
    while i < ev.len()
        invariant
            i <= ev@.len(),
            needle@ =~= seq!['.'] + ev@.take(i as int),
        decreases ev.len() - i,
    {
        needle.push(ev[i]);
        i += 1;
    }
    assert(ev@.take(ev@.len() as int) =~= ev@);
    let pos = match find_chars(v.as_slice(), needle.as_slice()) {
        Some(p) => p,
        None => return None,
    };
    proof {
        lemma_first_sub_unique(v@, needle@, pos as int);
    }
    let vl = v.len();
    assert(pos + needle@.len() <= v@.len());
    let end = pos + needle.len();
    if end < v.len() && crate::text::is_ascii_alphanumeric(v[end]) {
        return None;
    }
    let mut k = pos;
    while k > 0 && is_name_char(v[k - 1])
        invariant
            k <= pos <= v@.len(),
            head_start(v@, pos as int) == head_start(v@, k as int),
        decreases k,
    {
        k -= 1;
    }
    if k == pos {
        return None;
    }
    let mut r = string_of_range(v.as_slice(), k, pos);
    push_chars(&mut r, needle.as_slice());
    Some(r)
}

// ---------------------------------------------------------------------------
// Asking where a missing file is
// ---------------------------------------------------------------------------

/// Contents of the tool results that ask the model to ask the user ("물어보세요"),
/// latest first.
pub open spec fn ask_user_errors(ms: Seq<MessageView>) -> Seq<Seq<char>>
    decreases ms.len(),
{
    if ms.len() == 0 {
        Seq::empty()
    } else {
        let m = ms.last();
        let rest = ask_user_errors(ms.drop_last());
        if m.role == Role::Tool && m.content is Some && has_sub(m.content->0, "물어보세요"@) {
            seq![m.content->0] + rest
        } else {
            rest
        }
    }
}

/// The file name in a "파일 없음: <path>. ..." error.
pub open spec fn missing_file_name(c: Seq<char>) -> Option<Seq<char>> {
    match second_piece(c, "파일 없음:"@) {
        None => None,
        Some(rest) => path_file_name(trim(first_piece(trim_start(rest), ". "@))),
    }
}

/// Content of the last user message (empty when there is none).
pub open spec fn last_user_text(ms: Seq<MessageView>) -> Seq<char>
    decreases ms.len(),
{
    if ms.len() == 0 {
        Seq::empty()
    } else if ms.last().role == Role::User {
        crate::models::content_or_empty(ms.last())
    } else {
        last_user_text(ms.drop_last())
    }
}

/// The user mentioned the file `n` (its name or its stem).
pub open spec fn user_said(u: Seq<char>, n: Seq<char>) -> bool {
    has_sub(u, n) || has_sub(u, crate::paths::stem_spec(crate::paths::file_name_spec(n)))
}

/// The first missing file name, in `errs` order, that the user mentioned.
pub open spec fn pick_said_name(errs: Seq<Seq<char>>, u: Seq<char>) -> Option<Seq<char>>
    decreases errs.len(),
{
    if errs.len() == 0 {
        None
    } else {
        match missing_file_name(errs[0]) {
            Some(n) => if user_said(u, n) {
                Some(n)
            } else {
                pick_said_name(errs.drop_first(), u)
            },
            None => pick_said_name(errs.drop_first(), u),
        }
    }
}

/// A question about where the missing file is, when a tool result asked for one:
/// it names the file only when the user named it too (the model may have made the
/// name up).
pub open spec fn location_question_spec(ms: Seq<MessageView>) -> Option<Seq<char>> {
    let errs = ask_user_errors(ms);
    if errs.len() == 0 {
        None
    } else {
        Some(
            match pick_said_name(errs, last_user_text(ms)) {
                Some(n) => "'"@ + n + "' 파일을 찾지 못했어요. 어느 폴더에 있는지 알려주시면 다시 시도할게요."@,
                None => "요청하신 파일을 찾지 못했어요. 정확한 위치(폴더)를 알려주시겠어요?"@,
            },
        )
    }
}

/// The missing file name of an error text.
fn missing_file_name_of(c: &[char]) -> (r: Option<Vec<char>>)
    ensures
        match r {
            Some(n) => missing_file_name(c@) == Some(n@),
            None => missing_file_name(c@) is None,
        },
{
    let marker = chars_of("파일 없음:");
    let rest = match piece_after(c, marker.as_slice()) {
        Some(r) => r,
        None => return None,
    };
    let rest = trim_start_chars(rest.as_slice());
    let sep = chars_of(". ");
    let path = piece_before(rest.as_slice(), sep.as_slice());
    let path = trim_chars(path.as_slice());
    file_name_opt(path.as_slice())
}

/// Content of the last user message.
pub fn last_user_text_of(messages: &[ChatMessage]) -> (r: Vec<char>)
    ensures
        r@ == last_user_text(msgs_view(messages@)),
{
    let ghost mv = msgs_view(messages@);
    let mut k = messages.len();
    assert(mv.take(k as int) =~= mv);
    while k > 0 && messages[k - 1].role != Role::User
        invariant
            k <= messages@.len(),
            mv == msgs_view(messages@),
            last_user_text(mv) == last_user_text(mv.take(k as int)),
        decreases k,
    {
        assert(mv.take(k as int).drop_last() =~= mv.take(k - 1));
        assert(mv.take(k as int).last() == messages@[k - 1]@);
        k -= 1;
    }
    if k == 0 {
        assert(mv.take(0) =~= Seq::<MessageView>::empty());
        return Vec::new();
    }
    assert(mv.take(k as int).last() == messages@[k - 1]@);
    match &messages[k - 1].content {
        Some(c) => chars_of(c.as_str()),
        None => Vec::new(),
    }
}

/// Whether the user text `u` mentions the file `n` or its stem.
fn said(u: &[char], n: &[char]) -> (r: bool)
    ensures
        r == user_said(u@, n@),
{
    if crate::text::contains_chars(u, n) {
        return true;
    }
    let ns = string_of(n);
    let stem = crate::paths::file_stem_of(ns.as_str());
    let sv = chars_of(stem.as_str());
    crate::text::contains_chars(u, sv.as_slice())
}

/// After a turn ended without an answer: a question about the location of the
/// missing file that a tool result asked about, if any.
pub fn synthesize_location_question(messages: &[ChatMessage]) -> (r: Option<String>)
    ensures
        match r {
            Some(q) => location_question_spec(msgs_view(messages@)) == Some(q@),
            None => location_question_spec(msgs_view(messages@)) is None,
        },
{
    let ghost mv = msgs_view(messages@);
    let u = last_user_text_of(messages);
    let ask = chars_of("물어보세요");
    let mut any = false;
    let mut found: Option<Vec<char>> = None;
    let mut k = messages.len();
    assert(mv.take(k as int) =~= mv);
    while k > 0
        invariant
            k <= messages@.len(),
            mv == msgs_view(messages@),
            ask@ == "물어보세요"@,
            u@ == last_user_text(mv),
            (ask_user_errors(mv).len() > 0) == (any || ask_user_errors(mv.take(k as int)).len()
                > 0),
            pick_said_name(ask_user_errors(mv), u@) == match found {
                Some(n) => Some(n@),
                None => pick_said_name(ask_user_errors(mv.take(k as int)), u@),
            },
        decreases k,
    {
        let ghost tk = mv.take(k as int);
        assert(tk.drop_last() =~= mv.take(k - 1));
        assert(tk.last() == messages@[k - 1]@);
        let m = &messages[k - 1];
        if m.role == Role::Tool {
            match &m.content {
                Some(c) => {
                    let cv = chars_of(c.as_str());
                    if crate::text::contains_chars(cv.as_slice(), ask.as_slice()) {
                        any = true;
                        let ghost errs = ask_user_errors(tk);
                        assert(errs[0] == cv@);
                        assert(errs.drop_first() =~= ask_user_errors(mv.take(k - 1)));
                        if found.is_none() {
                            match missing_file_name_of(cv.as_slice()) {
                                Some(n) => {
                                    if said(u.as_slice(), n.as_slice()) {
                                        found = Some(n);
                                    }
                                },
                                None => {},
                            }
                        }
                    }
                },
                None => {},
            }
        }
        k -= 1;
    }
    assert(mv.take(0) =~= Seq::<MessageView>::empty());
    if !any {
        return None;
    }
    match found {
        Some(n) => {
            let mut q = to_string("'");
            push_chars(&mut q, n.as_slice());
            push_str(&mut q, "' 파일을 찾지 못했어요. 어느 폴더에 있는지 알려주시면 다시 시도할게요.");
            Some(q)
        },
        None => Some(to_string("요청하신 파일을 찾지 못했어요. 정확한 위치(폴더)를 알려주시겠어요?")),
    }
}

} // verus!

verus! {

// ---------------------------------------------------------------------------
// Reporting the last failure
// ---------------------------------------------------------------------------

/// Content of the latest tool result that reports an error ("오류:").
pub open spec fn last_error(ms: Seq<MessageView>) -> Option<Seq<char>>
    decreases ms.len(),
{
    if ms.len() == 0 {
        None
    } else {
        let m = ms.last();
        if m.role == Role::Tool && m.content is Some && starts_with(m.content->0, "오류:"@) {
            Some(m.content->0)
        } else {
            last_error(ms.drop_last())
        }
    }
}

/// `s.trim_start_matches(p)`: every leading repetition of `p` removed.
pub open spec fn strip_prefix_all(s: Seq<char>, p: Seq<char>) -> Seq<char>
    decreases s.len(),
{
    if p.len() > 0 && starts_with(s, p) {
        strip_prefix_all(s.skip(p.len() as int), p)
    } else {
        s
    }
}

/// Openings of the instructions meant for the model inside tool errors.
pub open spec fn directive_starts() -> Seq<Seq<char>> {
    seq![
        "이 사실을 그대로"@,
        "다른 경로를 추측해"@,
        "요청한 파일이 이 중에"@,
        "사용자에게 파일의 정확한 위치"@,
        "제공된 도구 목록에서"@,
    ]
}

/// Earliest position in `r` of any of `ds` (`r.len()` when none occurs).
pub open spec fn earliest_of(r: Seq<char>, ds: Seq<Seq<char>>) -> int
    decreases ds.len(),
{
    if ds.len() == 0 {
        r.len() as int
    } else {
        let c = earliest_of(r, ds.drop_last());
        if has_sub(r, ds.last()) && first_pos(r, ds.last()) < c {
            first_pos(r, ds.last())
        } else {
            c
        }
    }
}

/// Trailing dashes and commas removed (`trim_end_matches(['—', '-', ','])`).
pub open spec fn trim_end_dashes(s: Seq<char>) -> Seq<char>
    decreases s.len(),
{
    if s.len() > 0 && (s.last() == '—' || s.last() == '-' || s.last() == ',') {
        trim_end_dashes(s.drop_last())
    } else {
        s
    }
}

/// A tool error without the instructions addressed to the model: cut at the first
/// instruction, then trailing white space, dashes and commas removed.
pub open spec fn strip_directives_spec(r: Seq<char>) -> Seq<char> {
    trim_end(trim_end_dashes(trim_end(r.take(earliest_of(r, directive_starts())))))
}

/// The sentence that reports the last tool error of a turn that ended without an
/// answer; it says that part of the work was done when `had_success`.
pub open spec fn failure_note_spec(ms: Seq<MessageView>, had_success: bool) -> Option<Seq<char>> {
    match last_error(ms) {
        None => None,
        Some(e) => {
            let reason = clip_spec(strip_directives_spec(trim(strip_prefix_all(e, "오류:"@))), 140);
            Some(
                if had_success {
                    "요청 중 일부는 완료했지만 마지막 단계는 실패했어요. 이유: "@ + reason
                } else {
                    "요청하신 작업을 완료하지 못했어요. 이유: "@ + reason
                },
            )
        },
    }
}

/// The text of a tool error with the instructions to the model removed.
pub fn strip_model_directives(reason: &str) -> (r: String)
    ensures
        r@ == strip_directives_spec(reason@),
{
    let v = chars_of(reason);
    let ds: [&str; 5] = [
        "이 사실을 그대로",
        "다른 경로를 추측해",
        "요청한 파일이 이 중에",
        "사용자에게 파일의 정확한 위치",
        "제공된 도구 목록에서",
    ];
    let ghost dv = directive_starts();
    let mut cut = v.len();
    let mut i: usize = 0;
    while i < 5
        invariant
            i <= 5,
            v@ == reason@,
            dv == directive_starts(),
            forall|j: int| 0 <= j < 5 ==> (#[trigger] ds@[j])@ == dv[j],
            cut as int == earliest_of(v@, dv.take(i as int)),
            cut <= v@.len(),
        decreases 5 - i,
    {
        assert(dv.take(i + 1).drop_last() =~= dv.take(i as int));
        let d = chars_of(ds[i]);
        match find_chars(v.as_slice(), d.as_slice()) {
            Some(p) => {
                proof {
                    lemma_first_sub_unique(v@, d@, p as int);
                }
                if p < cut {
                    cut = p;
                }
            },
            None => {},
        }
        i += 1;
    }
    assert(dv.take(5) =~= dv);
    let k = crate::text::trim_end_len(v.as_slice(), cut);
    let mut e = k;
    assert(v@.take(cut as int).take(k as int) =~= v@.take(k as int));
    while e > 0 && (v[e - 1] == '—' || v[e - 1] == '-' || v[e - 1] == ',')
        invariant
            e <= k <= cut <= v@.len(),
            trim_end_dashes(v@.take(cut as int).take(k as int)) == trim_end_dashes(
                v@.take(e as int),
            ),
        decreases e,
    {
        assert(v@.take(e as int).drop_last() =~= v@.take(e - 1));
        e -= 1;
    }
    let f = crate::text::trim_end_len(v.as_slice(), e);
    assert(v@.take(e as int).take(f as int) =~= v@.take(f as int));
    assert(v@.take(f as int) =~= v@.subrange(0, f as int));
    string_of_range(v.as_slice(), 0, f)
}

/// `s.trim_start_matches(p)`.
fn strip_prefix_all_of(s: &[char], p: &[char]) -> (r: Vec<char>)
    ensures
        r@ == strip_prefix_all(s@, p@),
{
    let mut i: usize = 0;
    let sl = s.len();
    assert(s@.skip(0) =~= s@);
    while p.len() > 0 && i <= s.len() && p.len() <= s.len() - i && crate::text::matches_at(
        s,
        p,
        i,
    )
        invariant
            i <= s@.len(),
            sl == s@.len(),
            strip_prefix_all(s@, p@) == strip_prefix_all(s@.skip(i as int), p@),
        decreases s.len() - i,
    {
        assert(s@.skip(i as int).subrange(0, p@.len() as int) =~= s@.subrange(
            i as int,
            i + p@.len(),
        ));
        assert(s@.skip(i as int).skip(p@.len() as int) =~= s@.skip(i + p@.len()));
        i = i + p.len();
    }
    proof {
        if p@.len() > 0 && starts_with(s@.skip(i as int), p@) {
            assert(s@.skip(i as int).subrange(0, p@.len() as int) =~= s@.subrange(
                i as int,
                i + p@.len(),
            ));
        }
    }
    let r = crate::paths::slice_to_vec(s, i, s.len());
    assert(r@ =~= s@.skip(i as int));
    r
}

/// The latest error reported by a tool result.
fn last_error_of(messages: &[ChatMessage]) -> (r: Option<Vec<char>>)
    ensures
        match r {
            Some(e) => last_error(msgs_view(messages@)) == Some(e@),
            None => last_error(msgs_view(messages@)) is None,
        },
{
    let ghost mv = msgs_view(messages@);
    let prefix = chars_of("오류:");
    let mut k = messages.len();
    assert(mv.take(k as int) =~= mv);
    while k > 0
        invariant
            k <= messages@.len(),
            mv == msgs_view(messages@),
            prefix@ == "오류:"@,
            last_error(mv) == last_error(mv.take(k as int)),
        decreases k,
    {
        let ghost tk = mv.take(k as int);
        assert(tk.drop_last() =~= mv.take(k - 1));
        assert(tk.last() == messages@[k - 1]@);
        if messages[k - 1].role == Role::Tool {
            match &messages[k - 1].content {
                Some(c) => {
                    let cv = chars_of(c.as_str());
                    if crate::text::starts_with_chars(cv.as_slice(), prefix.as_slice()) {
                        return Some(cv);
                    }
                },
                None => {},
            }
        }
        k -= 1;
    }
    assert(mv.take(0) =~= Seq::<MessageView>::empty());
    None
}

/// After a turn ended without an answer: an honest report of the last tool error,
/// if there was one.
pub fn synthesize_failure_note(messages: &[ChatMessage], had_success: bool) -> (r: Option<String>)
    ensures
        match r {
            Some(n) => failure_note_spec(msgs_view(messages@), had_success) == Some(n@),
            None => failure_note_spec(msgs_view(messages@), had_success) is None,
        },
{
    let err = match last_error_of(messages) {
        Some(e) => e,
        None => return None,
    };
    let prefix = chars_of("오류:");
    let body = strip_prefix_all_of(err.as_slice(), prefix.as_slice());
    let body = trim_chars(body.as_slice());
    let body = string_of(body.as_slice());
    let stripped = strip_model_directives(body.as_str());
    let reason = clip(stripped.as_str(), 140);
    let mut note = if had_success {
        to_string("요청 중 일부는 완료했지만 마지막 단계는 실패했어요. 이유: ")
    } else {
        to_string("요청하신 작업을 완료하지 못했어요. 이유: ")
    };
    push_str(&mut note, reason.as_str());
    Some(note)
}

} // verus!

verus! {

// ---------------------------------------------------------------------------
// Laws
// ---------------------------------------------------------------------------

proof fn lemma_pick_said(errs: Seq<Seq<char>>, u: Seq<char>)
    ensures
        pick_said_name(errs, u) matches Some(n) ==> user_said(u, n),
    decreases errs.len(),
{
    if errs.len() > 0 {
        lemma_pick_said(errs.drop_first(), u);
    }
}

/// The location question names a file only when the user's last message
/// mentioned it (its name or its stem): a name the model made up is never shown.
pub proof fn law_question_names_only_mentioned_files(ms: Seq<MessageView>)
    ensures
        pick_said_name(ask_user_errors(ms), last_user_text(ms)) matches Some(n) ==> user_said(
            last_user_text(ms),
            n,
        ) && location_question_spec(ms) == Some(
            "'"@ + n + "' 파일을 찾지 못했어요. 어느 폴더에 있는지 알려주시면 다시 시도할게요."@,
        ),
{
    lemma_pick_said(ask_user_errors(ms), last_user_text(ms));
    if pick_said_name(ask_user_errors(ms), last_user_text(ms)) is Some {
        lemma_pick_nonempty(ask_user_errors(ms), last_user_text(ms));
    }
}

proof fn lemma_pick_nonempty(errs: Seq<Seq<char>>, u: Seq<char>)
    requires
        pick_said_name(errs, u) is Some,
    ensures
        errs.len() > 0,
{
}

/// A first occurrence exists wherever an occurrence does.
pub proof fn lemma_first_occurrence(s: Seq<char>, m: Seq<char>, i: int)
    requires
        sub_at(s, m, i),
    ensures
        crate::text::first_sub_at(s, m, first_pos(s, m)),
    decreases i,
{
    if exists|j: int| 0 <= j < i && sub_at(s, m, j) {
        let j = choose|j: int| 0 <= j < i && sub_at(s, m, j);
        lemma_first_occurrence(s, m, j);
    } else {
        assert(crate::text::first_sub_at(s, m, i));
    }
}

pub proof fn lemma_earliest_le(r: Seq<char>, ds: Seq<Seq<char>>, k: int)
    requires
        0 <= k < ds.len(),
        has_sub(r, ds[k]),
    ensures
        earliest_of(r, ds) <= first_pos(r, ds[k]),
    decreases ds.len(),
{
    if k < ds.len() - 1 {
        lemma_earliest_le(r, ds.drop_last(), k);
        assert(ds.drop_last()[k] == ds[k]);
    }
}

pub proof fn lemma_earliest_bounds(r: Seq<char>, ds: Seq<Seq<char>>)
    ensures
        0 <= earliest_of(r, ds) <= r.len(),
    decreases ds.len(),
{
    if ds.len() > 0 {
        lemma_earliest_bounds(r, ds.drop_last());
        if has_sub(r, ds.last()) {
            let i = choose|i: int| sub_at(r, ds.last(), i);
            lemma_first_occurrence(r, ds.last(), i);
        }
    }
}

proof fn lemma_trim_end_sub(s: Seq<char>, d: Seq<char>, j: int)
    requires
        sub_at(trim_end(s), d, j),
    ensures
        sub_at(s, d, j),
    decreases s.len(),
{
    if s.len() > 0 && crate::text::is_ws(s.last()) {
        lemma_trim_end_sub(s.drop_last(), d, j);
        assert(s.drop_last().subrange(j, j + d.len()) =~= s.subrange(j, j + d.len()));
    }
}

proof fn lemma_trim_dashes_sub(s: Seq<char>, d: Seq<char>, j: int)
    requires
        sub_at(trim_end_dashes(s), d, j),
    ensures
        sub_at(s, d, j),
    decreases s.len(),
{
    if s.len() > 0 && (s.last() == '—' || s.last() == '-' || s.last() == ',') {
        lemma_trim_dashes_sub(s.drop_last(), d, j);
        assert(s.drop_last().subrange(j, j + d.len()) =~= s.subrange(j, j + d.len()));
    }
}

/// The reason quoted from a tool error holds none of the instructions addressed
/// to the model.
pub proof fn law_reason_has_no_directive(r: Seq<char>, k: int)
    requires
        0 <= k < directive_starts().len(),
    ensures
        !has_sub(strip_directives_spec(r), directive_starts()[k]),
{
    let ds = directive_starts();
    let d = ds[k];
    let c = earliest_of(r, ds);
    lemma_earliest_bounds(r, ds);
    assert(d.len() > 0) by {
        reveal_strlit("이 사실을 그대로");
        reveal_strlit("다른 경로를 추측해");
        reveal_strlit("요청한 파일이 이 중에");
        reveal_strlit("사용자에게 파일의 정확한 위치");
        reveal_strlit("제공된 도구 목록에서");
    }
    let t = r.take(c);
    if has_sub(strip_directives_spec(r), d) {
        let j = choose|j: int| sub_at(strip_directives_spec(r), d, j);
        lemma_trim_end_sub(trim_end_dashes(trim_end(t)), d, j);
        lemma_trim_dashes_sub(trim_end(t), d, j);
        lemma_trim_end_sub(t, d, j);
        assert(t.subrange(j, j + d.len()) =~= r.subrange(j, j + d.len()));
        assert(sub_at(r, d, j));
        lemma_first_occurrence(r, d, j);
        lemma_earliest_le(r, ds, k);
        assert(false);
    }
}

} // verus!

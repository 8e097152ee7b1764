//! The system prompt: the agent's rules, where it works, and how it addresses the
//! user; and its renewal at every turn, which keeps the digest of older turns.
use vstd::prelude::*;

use crate::history::{join_lines, split_digest_spec, DIGEST_MARKER};
use crate::localsearch::{lines_spec, lines_state, strip_cr};
use crate::models::{
    content_or_empty, copy_opt_string, message_of, msgs_view, ChatMessage, MessageView, Role,
};
use crate::text::{ends_with, first_sub_at, has_sub, push_str, sub_at, to_string, trim};

verus! {

/// A name with one trailing honorific `님` taken off.
pub open spec fn without_honorific(s: Seq<char>) -> Seq<char> {
    if ends_with(s, "님"@) {
        s.take(s.len() - "님"@.len())
    } else {
        s
    }
}

/// The persona section: friendly and by name when both names are known; otherwise
/// the agent asks for the names it lacks (and to be given one), pointing to the
/// settings panel where names are saved.
pub open spec fn persona_spec(user_name: Seq<char>, agent_name: Seq<char>) -> Seq<char> {
    let user = trim(without_honorific(trim(user_name)));
    let agent = trim(agent_name);
    if user.len() > 0 && agent.len() > 0 {
        "페르소나: 너의 이름은 '"@ + agent + "'이고, 사용자의 이름은 '"@ + user
            + "'다.\n따뜻하고 친근한 말투를 쓰고, 가끔 '"@ + user + "님'처럼 이름을 불러준다."@
    } else if user.len() == 0 && agent.len() == 0 {
        "페르소나: 아직 서로 이름을 모른다. 첫 인사나 잡담 때 자연스럽게 사용자의 이름을 묻고,\n너의 이름도 하나 지어달라고 부탁하라. 이름은 설정 패널에서 저장할 수 있다고 안내하라.\n단, 사용자가 작업을 요청하면 작업을 먼저 처리하고 이름은 나중에 물어본다."@
    } else if user.len() == 0 {
        "페르소나: 너의 이름은 '"@ + agent
            + "'다. 아직 사용자의 이름을 모르니 대화 초반에 자연스럽게 묻고,\n이름은 설정 패널에서 저장할 수 있다고 안내하라. 따뜻하고 친근한 말투를 쓴다."@
    } else {
        "페르소나: 사용자의 이름은 '"@ + user
            + "'다. 아직 너의 이름이 없으니 사용자에게 지어달라고 부탁하고,\n이름은 설정 패널에서 저장할 수 있다고 안내하라. 따뜻하고 친근한 말투를 쓴다."@
    }
}

fn strip_honorific(s: &str) -> (r: String)
    ensures
        r@ == without_honorific(s@),
{
    let v = crate::text::chars_of(s);
    let h = crate::text::chars_of("님");
    if crate::text::ends_with_chars(v.as_slice(), h.as_slice()) {
        let r = crate::text::string_of_range(v.as_slice(), 0, v.len() - h.len());
        assert(v@.subrange(0, v@.len() - h@.len()) =~= v@.take(v@.len() - h@.len()));
        r
    } else {
        to_string(s)
    }
}

pub fn persona_section(user_name: &str, agent_name: &str) -> (r: String)
    ensures
        r@ == persona_spec(user_name@, agent_name@),
{
    let u0 = crate::text::trim_str(user_name);
    let u1 = strip_honorific(u0.as_str());
    let user = crate::text::trim_str(u1.as_str());
    let agent = crate::text::trim_str(agent_name);
    let ul = crate::history::char_count(user.as_str());
    let al = crate::history::char_count(agent.as_str());
    let mut r = String::new();
    if ul > 0 && al > 0 {
        push_str(&mut r, "페르소나: 너의 이름은 '");
        push_str(&mut r, agent.as_str());
        push_str(&mut r, "'이고, 사용자의 이름은 '");
        push_str(&mut r, user.as_str());
        push_str(&mut r, "'다.\n따뜻하고 친근한 말투를 쓰고, 가끔 '");
        push_str(&mut r, user.as_str());
        push_str(&mut r, "님'처럼 이름을 불러준다.");
    } else if ul == 0 && al == 0 {
        push_str(&mut r, "페르소나: 아직 서로 이름을 모른다. 첫 인사나 잡담 때 자연스럽게 사용자의 이름을 묻고,\n너의 이름도 하나 지어달라고 부탁하라. 이름은 설정 패널에서 저장할 수 있다고 안내하라.\n단, 사용자가 작업을 요청하면 작업을 먼저 처리하고 이름은 나중에 물어본다.");
    } else if ul == 0 {
        push_str(&mut r, "페르소나: 너의 이름은 '");
        push_str(&mut r, agent.as_str());
        push_str(&mut r, "'다. 아직 사용자의 이름을 모르니 대화 초반에 자연스럽게 묻고,\n이름은 설정 패널에서 저장할 수 있다고 안내하라. 따뜻하고 친근한 말투를 쓴다.");
    } else {
        push_str(&mut r, "페르소나: 사용자의 이름은 '");
        push_str(&mut r, user.as_str());
        push_str(&mut r, "'다. 아직 너의 이름이 없으니 사용자에게 지어달라고 부탁하고,\n이름은 설정 패널에서 저장할 수 있다고 안내하라. 따뜻하고 친근한 말투를 쓴다.");
    }
    assert(r@ =~= persona_spec(user_name@, agent_name@));
    r
}

/// The name the agent goes by: its configured name, trimmed, or `Local Agent`.
pub open spec fn agent_display_name(agent_name: Seq<char>) -> Seq<char> {
    if trim(agent_name).len() == 0 {
        "Local Agent"@
    } else {
        trim(agent_name)
    }
}

/// The system prompt for an agent called `agent_name` serving `user_name`, working
/// in `workspace` (shown with `/`), with the home folder `home` and the local time
/// `now` already formatted.
pub open spec fn system_prompt_spec(
    agent_name: Seq<char>,
    user_name: Seq<char>,
    workspace: Seq<char>,
    home: Seq<char>,
    now: Seq<char>,
) -> Seq<char> {
    let name = agent_display_name(agent_name);
    let w = crate::tools::archive::slashes(workspace);
    "너는 사용자의 Windows PC에서 동작하는 로컬 에이전트 '"@ + name + "'다.\n현재 시각: "@ + now + ".\n\n현재 폴더(워크스페이스): "@ + w + "\n사용자가 경로 없이 파일/폴더/이미지 이름만 말하면 항상 현재 폴더 안의 것이다.\n예: \"cat.png 배경제거\" → "@ + w + "/cat.png, \"reports 폴더 압축\" → "@ + w + "/reports\n검색(root)·읽기·저장의 기본 위치도 모두 현재 폴더다.\n아래 위치는 사용자가 그 이름을 직접 말했을 때만 쓴다:\n바탕화면="@ + home + "\\Desktop, 다운로드="@ + home + "\\Downloads, 문서="@ + home + "\\Documents, 사진="@ + home + "\\Pictures\n\n규칙:\n1. 파일/이미지/PDF/화면과 관련된 요청은 반드시 도구를 호출해 실제로 수행한다. 추측으로 답하지 않는다.\n2. 경로 해석: 경로 없는 이름은 현재 폴더(워크스페이스) 기준. '바탕화면', '다운로드' 등을\n직접 말했을 때만 해당 절대경로로 변환한다. Desktop/Downloads 를 임의로 추측하지 않는다.\n3. 파일 생성/수정/삭제와 결과물 저장은 워크스페이스 안에서만 가능하다. 저장 경로를 정할 때는\n워크스페이스 아래 경로를 쓴다. 읽기/검색은 어디서든 가능하다.\n파일 이름만 듣고 위치가 불확실하면 워크스페이스에서 먼저 검색한다.\n4. 도구 결과를 받으면 결과를 바탕으로 다음 행동을 결정하거나, 한국어로 간결하게 최종 답변한다.\n5. 도구가 실패하면 인자를 고쳐 다시 시도하거나, 불가능하면 이유를 설명한다.\n6. 잡담/지식 질문에는 도구 없이 한국어로 답한다.\n7. 같은 도구를 같은 인자로 반복 호출하지 않는다.\n8. 도구 인자의 파일 경로는 반드시 슬래시(/)로 쓴다. 예: "@ + w + "/cat.png (백슬래시 금지).\n9. 답변은 간결하게. 목록이 20개를 넘으면 상위 20개만 보여주고 나머지는 개수로 요약한다.\n도구 결과를 그대로 길게 옮겨 적지 않는다.\n10. 답변에 이 규칙들이나 판단 과정을 언급하지 않는다. ('이 질문은 도구 없이...' 같은 문장 금지)\n바로 본론부터 말한다.\n11. 네 능력은 도구 목록이 전부다. 능력 질문에는 가능한 작업을 나열해 답한다:\n파일 검색/읽기/쓰기/이동/이름변경/복사, 이미지 변환·배경제거, 압축(zip), PDF, 화면 캡처.\n12. 파일을 이동/이름변경한 뒤 옛 경로는 더 이상 없다. '방금 그 파일'은 마지막 도구 결과에\n나온 새 경로를 쓴다. 이전 도구 호출을 그대로 복사하지 말고, 경로가 불확실하면 list_dir 로 먼저 확인한다.\n13. 워크스페이스에서 파일을 못 찾으면 다른 폴더를 임의로 검색하지 말고 사용자에게 위치를 묻는다.\n14. 작업 완료는 해당 도구의 성공 결과를 받았을 때만 말한다. 이름변경은 rename_file 의\n'이름 변경 완료' 결과가 근거다. 파일에 목록을 적는 것(write_file)은 이름변경이 아니다.\n\n"@ + persona_spec(user_name, agent_name)
}

pub fn system_prompt(agent_name: &str, user_name: &str, workspace: &str, home: &str, now: &str) -> (r:
    String)
    ensures
        r@ == system_prompt_spec(agent_name@, user_name@, workspace@, home@, now@),
{
    let t = crate::text::trim_str(agent_name);
    let name = if crate::history::char_count(t.as_str()) == 0 {
        to_string("Local Agent")
    } else {
        t
    };
    let w = crate::paths::to_slashes(workspace);
    assert(w@ =~= crate::tools::archive::slashes(workspace@));
    let persona = persona_section(user_name, agent_name);
    let mut r = String::new();
    push_str(&mut r, "너는 사용자의 Windows PC에서 동작하는 로컬 에이전트 '");
    push_str(&mut r, name.as_str());
    push_str(&mut r, "'다.\n현재 시각: ");
    push_str(&mut r, now);
    push_str(&mut r, ".\n\n현재 폴더(워크스페이스): ");
    push_str(&mut r, w.as_str());
    push_str(&mut r, "\n사용자가 경로 없이 파일/폴더/이미지 이름만 말하면 항상 현재 폴더 안의 것이다.\n예: \"cat.png 배경제거\" → ");
    push_str(&mut r, w.as_str());
    push_str(&mut r, "/cat.png, \"reports 폴더 압축\" → ");
    push_str(&mut r, w.as_str());
    push_str(&mut r, "/reports\n검색(root)·읽기·저장의 기본 위치도 모두 현재 폴더다.\n아래 위치는 사용자가 그 이름을 직접 말했을 때만 쓴다:\n바탕화면=");
    push_str(&mut r, home);
    push_str(&mut r, "\\Desktop, 다운로드=");
    push_str(&mut r, home);
    push_str(&mut r, "\\Downloads, 문서=");
    push_str(&mut r, home);
    push_str(&mut r, "\\Documents, 사진=");
    push_str(&mut r, home);
    push_str(&mut r, "\\Pictures\n\n규칙:\n1. 파일/이미지/PDF/화면과 관련된 요청은 반드시 도구를 호출해 실제로 수행한다. 추측으로 답하지 않는다.\n2. 경로 해석: 경로 없는 이름은 현재 폴더(워크스페이스) 기준. '바탕화면', '다운로드' 등을\n직접 말했을 때만 해당 절대경로로 변환한다. Desktop/Downloads 를 임의로 추측하지 않는다.\n3. 파일 생성/수정/삭제와 결과물 저장은 워크스페이스 안에서만 가능하다. 저장 경로를 정할 때는\n워크스페이스 아래 경로를 쓴다. 읽기/검색은 어디서든 가능하다.\n파일 이름만 듣고 위치가 불확실하면 워크스페이스에서 먼저 검색한다.\n4. 도구 결과를 받으면 결과를 바탕으로 다음 행동을 결정하거나, 한국어로 간결하게 최종 답변한다.\n5. 도구가 실패하면 인자를 고쳐 다시 시도하거나, 불가능하면 이유를 설명한다.\n6. 잡담/지식 질문에는 도구 없이 한국어로 답한다.\n7. 같은 도구를 같은 인자로 반복 호출하지 않는다.\n8. 도구 인자의 파일 경로는 반드시 슬래시(/)로 쓴다. 예: ");
    push_str(&mut r, w.as_str());
    push_str(&mut r, "/cat.png (백슬래시 금지).\n9. 답변은 간결하게. 목록이 20개를 넘으면 상위 20개만 보여주고 나머지는 개수로 요약한다.\n도구 결과를 그대로 길게 옮겨 적지 않는다.\n10. 답변에 이 규칙들이나 판단 과정을 언급하지 않는다. ('이 질문은 도구 없이...' 같은 문장 금지)\n바로 본론부터 말한다.\n11. 네 능력은 도구 목록이 전부다. 능력 질문에는 가능한 작업을 나열해 답한다:\n파일 검색/읽기/쓰기/이동/이름변경/복사, 이미지 변환·배경제거, 압축(zip), PDF, 화면 캡처.\n12. 파일을 이동/이름변경한 뒤 옛 경로는 더 이상 없다. '방금 그 파일'은 마지막 도구 결과에\n나온 새 경로를 쓴다. 이전 도구 호출을 그대로 복사하지 말고, 경로가 불확실하면 list_dir 로 먼저 확인한다.\n13. 워크스페이스에서 파일을 못 찾으면 다른 폴더를 임의로 검색하지 말고 사용자에게 위치를 묻는다.\n14. 작업 완료는 해당 도구의 성공 결과를 받았을 때만 말한다. 이름변경은 rename_file 의\n'이름 변경 완료' 결과가 근거다. 파일에 목록을 적는 것(write_file)은 이름변경이 아니다.\n\n");
    push_str(&mut r, persona.as_str());
    assert(r@ =~= system_prompt_spec(agent_name@, user_name@, workspace@, home@, now@));
    r
}

/// The renewed system text: the fresh prompt, followed by the digest section when
/// the old system text had digest lines.
pub open spec fn refreshed_text(old_text: Seq<char>, prompt: Seq<char>) -> Seq<char> {
    let lines = split_digest_spec(old_text).1;
    if lines.len() == 0 {
        prompt
    } else {
        prompt + "\n\n"@ + DIGEST_MARKER@ + "\n"@ + join_lines(lines)
    }
}

/// Renews the system message with `prompt` at the start of a turn, keeping the
/// digest lines of older turns; without a leading system message nothing changes.
pub fn refresh_system_prompt(messages: &mut Vec<ChatMessage>, prompt: &str)
    ensures
        msgs_view(final(messages)@) == if old(messages)@.len() > 0 && old(messages)@[0].role
            == Role::System {
            msgs_view(old(messages)@).update(
                0,
                message_of(
                    Role::System,
                    Some(refreshed_text(content_or_empty(old(messages)@[0]@), prompt@)),
                ),
            )
        } else {
            msgs_view(old(messages)@)
        },
{
    if messages.len() == 0 {
        return;
    }
    match messages[0].role {
        Role::System => {},
        _ => return,
    }
    let old_text = match &messages[0].content {
        Some(c) => to_string(c.as_str()),
        None => String::new(),
    };
    assert(old_text@ == content_or_empty(messages@[0]@));
    let (_, lines) = crate::history::split_digest(old_text.as_str());
    let mut text = to_string(prompt);
    if lines.len() > 0 {
        push_str(&mut text, "\n\n");
        push_str(&mut text, DIGEST_MARKER);
        push_str(&mut text, "\n");
        crate::history::join_lines_of(&lines, 0, &mut text);
        assert(lines@.map_values(|s: String| s@).skip(0) =~= lines@.map_values(|s: String| s@));
    }
    let ghost before = msgs_view(messages@);
    messages.set(0, ChatMessage::system(text.as_str()));
    assert(msgs_view(messages@) =~= before.update(0, message_of(Role::System, Some(text@))));
}

/// A digest line that survives being written out and read back: no line break in
/// it and no carriage return at its end.
pub open spec fn clean_line(l: Seq<char>) -> bool {
    !l.contains('\n') && !(l.len() > 0 && l.last() == '\r')
}

proof fn lemma_lines_state_plain(s: Seq<char>)
    requires
        !s.contains('\n'),
    ensures
        lines_state(s) == (Seq::<Seq<char>>::empty(), s),
    decreases s.len(),
{
    if s.len() > 0 {
        assert(!s.drop_last().contains('\n')) by {
            if s.drop_last().contains('\n') {
                let k = choose|k: int| 0 <= k < s.drop_last().len() && s.drop_last()[k] == '\n';
                assert(s[k] == '\n');
            }
        }
        lemma_lines_state_plain(s.drop_last());
        assert(s[s.len() - 1] != '\n');
        assert(s.drop_last().push(s.last()) =~= s);
    }
}

proof fn lemma_lines_state_concat(x: Seq<char>, y: Seq<char>)
    requires
        lines_state(x).1.len() == 0,
    ensures
        lines_state(x + y) == (lines_state(x).0 + lines_state(y).0, lines_state(y).1),
    decreases y.len(),
{
    if y.len() == 0 {
        assert(x + y =~= x);
        assert(lines_state(x).0 + Seq::<Seq<char>>::empty() =~= lines_state(x).0);
        assert(lines_state(x).1 =~= Seq::<char>::empty());
    } else {
        lemma_lines_state_concat(x, y.drop_last());
        assert((x + y).drop_last() =~= x + y.drop_last());
        assert((x + y).last() == y.last());
        let (dx, _) = lines_state(x);
        let (dy, cy) = lines_state(y.drop_last());
        if y.last() == '\n' {
            assert(dx + dy.push(strip_cr(cy)) =~= (dx + dy).push(strip_cr(cy)));
        }
    }
}

/// Reading back joined clean lines: all but the last are finished lines, the last
/// is still open.
proof fn lemma_lines_state_join(ls: Seq<Seq<char>>)
    requires
        ls.len() > 0,
        forall|i: int| 0 <= i < ls.len() ==> clean_line(#[trigger] ls[i]),
    ensures
        lines_state(join_lines(ls)) == (ls.drop_last(), ls.last()),
    decreases ls.len(),
{
    if ls.len() == 1 {
        lemma_lines_state_plain(ls[0]);
        assert(ls.drop_last() =~= Seq::<Seq<char>>::empty());
    } else {
        let dl = ls.drop_last();
        assert forall|i: int| 0 <= i < dl.len() implies clean_line(#[trigger] dl[i]) by {
            assert(dl[i] == ls[i]);
        }
        lemma_lines_state_join(dl);
        let head = join_lines(dl) + seq!['\n'];
        assert(head.drop_last() =~= join_lines(dl));
        assert(clean_line(dl.last()) && dl.last() == ls[ls.len() - 2]);
        assert(strip_cr(dl.last()) == dl.last());
        assert(dl.drop_last().push(dl.last()) =~= dl);
        assert(lines_state(head) == (dl, Seq::<char>::empty()));
        assert(clean_line(ls[ls.len() - 1]));
        lemma_lines_state_plain(ls.last());
        lemma_lines_state_concat(head, ls.last());
        assert(join_lines(ls) =~= head + ls.last());
        assert(dl + Seq::<Seq<char>>::empty() =~= dl);
    }
}

/// Renewing the system prompt keeps the digest: when the fresh prompt does not
/// itself contain the digest marker, the digest lines read back from the renewed
/// text are the lines of the old text (lines without line breaks or trailing
/// carriage returns, the last not empty, as the digest writes them).
pub proof fn law_refresh_keeps_digest(old_text: Seq<char>, prompt: Seq<char>)
    requires
        !has_sub(prompt, DIGEST_MARKER@),
        forall|i: int|
            0 <= i < split_digest_spec(old_text).1.len() ==> clean_line(
                #[trigger] split_digest_spec(old_text).1[i],
            ),
        split_digest_spec(old_text).1.len() > 0 ==> split_digest_spec(old_text).1.last().len() > 0,
    ensures
        split_digest_spec(refreshed_text(old_text, prompt)).1 == split_digest_spec(old_text).1,
{
    let lines = split_digest_spec(old_text).1;
    let m = DIGEST_MARKER@;
    reveal_strlit("[이전 대화 요약]");
    if lines.len() == 0 {
        assert(refreshed_text(old_text, prompt) == prompt);
    } else {
        let t = refreshed_text(old_text, prompt);
        reveal_strlit("\n\n");
        reveal_strlit("\n");
        let p: int = prompt.len() as int + 2;
        let rest = m + seq!['\n'] + join_lines(lines);
        assert(t =~= prompt + seq!['\n', '\n'] + rest);
        assert(sub_at(t, m, p)) by {
            assert(t.subrange(p, p + m.len() as int) =~= m);
        }
        assert forall|j: int| 0 <= j < p implies !sub_at(t, m, j) by {
            if sub_at(t, m, j) {
                if j + m.len() <= prompt.len() {
                    assert(prompt.subrange(j, j + m.len()) =~= t.subrange(j, j + m.len()));
                    assert(sub_at(prompt, m, j));
                } else {
                    let k = prompt.len() - j;
                    if j < prompt.len() {
                        assert(t[prompt.len() as int] == '\n');
                        assert(t.subrange(j, j + m.len())[k] == m[k]);
                    } else {
                        assert(t.subrange(j, j + m.len())[0] == m[0]);
                    }
                }
            }
        }
        assert(first_sub_at(t, m, p));
        crate::localsearch::lemma_first_sub_unique(t, m, p);
        assert(t.skip(p) =~= rest);
        // the marker line, then the digest lines
        let head = m + seq!['\n'];
        lemma_lines_state_plain(m);
        assert(head.drop_last() =~= m);
        assert(lines_state(head) == (seq![m], Seq::<char>::empty()));
        lemma_lines_state_join(lines);
        lemma_lines_state_concat(head, join_lines(lines));
        assert(rest =~= head + join_lines(lines));
        assert(seq![m] + lines.drop_last() =~= seq![m] + lines.drop_last());
        assert((seq![m] + lines.drop_last()).push(lines.last()) =~= seq![m] + lines);
        assert(lines_spec(rest) == seq![m] + lines);
        assert((seq![m] + lines).drop_first() =~= lines);
    }
}

// ---------------------------------------------------------------------------
// Retrieved context for one turn
// ---------------------------------------------------------------------------

/// The system text with a block of retrieved context attached.
pub open spec fn with_context_text(text: Seq<char>, block: Seq<char>) -> Seq<char> {
    text + "\n\n"@ + block
}

/// The history with `block` attached to the content of its first message.
pub open spec fn attached_view(ms: Seq<MessageView>, block: Seq<char>) -> Seq<MessageView> {
    if ms.len() == 0 {
        ms
    } else {
        ms.update(
            0,
            MessageView { content: Some(with_context_text(content_or_empty(ms[0]), block)), ..ms[0] },
        )
    }
}

/// The history with the content of its first message set to `saved`.
pub open spec fn restored_view(ms: Seq<MessageView>, saved: Option<Seq<char>>) -> Seq<MessageView> {
    if ms.len() == 0 {
        ms
    } else {
        ms.update(0, MessageView { content: saved, ..ms[0] })
    }
}

/// Attaches the retrieved-context `block` to the system prompt (the first message)
/// for the coming turn only, and returns the content it had, to be put back with
/// [`restore_first_content`] once the turn is over. Without messages nothing
/// changes.
pub fn attach_context(messages: &mut Vec<ChatMessage>, block: &str) -> (saved: Option<String>)
    ensures
        crate::models::opt_view(saved) == (if old(messages)@.len() > 0 {
            old(messages)@[0]@.content
        } else {
            None
        }),
        msgs_view(final(messages)@) == attached_view(msgs_view(old(messages)@), block@),
{
    if messages.len() == 0 {
        return None;
    }
    let saved = copy_opt_string(&messages[0].content);
    let mut text = match &messages[0].content {
        Some(c) => to_string(c.as_str()),
        None => String::new(),
    };
    push_str(&mut text, "\n\n");
    push_str(&mut text, block);
    let mut m = messages[0].duplicate();
    m.content = Some(text);
    let ghost before = msgs_view(messages@);
    messages.set(0, m);
    assert(msgs_view(messages@) =~= attached_view(before, block@));
    saved
}

/// Puts back the content of the first message that [`attach_context`] returned, so
/// that the retrieved context is not kept in the session.
pub fn restore_first_content(messages: &mut Vec<ChatMessage>, saved: Option<String>)
    ensures
        msgs_view(final(messages)@) == restored_view(
            msgs_view(old(messages)@),
            crate::models::opt_view(saved),
        ),
{
    if messages.len() == 0 {
        return;
    }
    let ghost sv = crate::models::opt_view(saved);
    let mut m = messages[0].duplicate();
    m.content = saved;
    let ghost before = msgs_view(messages@);
    messages.set(0, m);
    assert(msgs_view(messages@) =~= restored_view(before, sv));
}

/// Putting back what attaching the context saved undoes the attachment: the history
/// is as it was, with the messages of the turn after it (for a history that has a
/// first message).
pub proof fn law_restore_undoes_attach(
    ms: Seq<MessageView>,
    block: Seq<char>,
    added: Seq<MessageView>,
)
    requires
        ms.len() > 0,
    ensures
        restored_view(attached_view(ms, block) + added, ms[0].content) == ms + added,
{
    assert(restored_view(attached_view(ms, block) + added, ms[0].content) =~= ms + added);
}

} // verus!

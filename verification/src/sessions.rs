//! Conversation sessions: one JSON file per session in a directory.
//!
//! Reading and writing the files is left to the caller; the store decides which
//! file a session id names (refusing ids that could leave the directory), what is
//! written for a session and what a listing shows.
use vstd::prelude::*;

use crate::history::{user_count, users_of};
use crate::models::{content_or_empty, copy_messages, msgs_view, ChatMessage, MessageView, Role};
use crate::paths::{join, join_spec};
use crate::text::{
    chars_of, collapse_whitespace, collapse_ws, is_ascii_alnum, push_str, string_of,
    string_of_range, to_string,
};

verus! {

/// What the session list shows of a session (the stored file without its messages).
#[derive(Clone, Debug)]
pub struct SessionMeta {
    pub id: String,
    /// Title made from the first user message.
    pub title: String,
    pub created_at: String,
    pub updated_at: String,
    /// Number of user messages (turns).
    pub turns: usize,
}

/// The whole content of a session file.
#[derive(Clone, Debug)]
pub struct StoredSession {
    pub id: String,
    pub title: String,
    pub created_at: String,
    pub updated_at: String,
    pub messages: Vec<ChatMessage>,
}

/// Error of the session store.
#[derive(Clone, Debug)]
pub enum SessionError {
    /// The id is empty or holds a character other than ASCII letters, digits and `-`.
    InvalidId(String),
}

impl SessionError {
    /// The message shown to the user.
    pub fn message(&self) -> (r: String)
        ensures
            r@ == (match self {
                SessionError::InvalidId(id) => "잘못된 세션 id: "@ + id@,
            }),
    {
        match self {
            SessionError::InvalidId(id) => {
                let mut r = to_string("잘못된 세션 id: ");
                push_str(&mut r, id.as_str());
                r
            },
        }
    }
}

/// A session id names a file of the store: non-empty, ASCII letters, digits and
/// `-` only (no separator, no dot, so it cannot leave the directory).
pub open spec fn valid_id(id: Seq<char>) -> bool {
    id.len() > 0 && forall|i: int| 0 <= i < id.len() ==> is_ascii_alnum(#[trigger] id[i]) || id[i]
        == '-'
}

/// The file of session `id` in directory `dir`.
pub open spec fn session_file(dir: Seq<char>, id: Seq<char>) -> Seq<char> {
    join_spec(dir, id + ".json"@)
}

/// Title of a conversation: its first user message with white space collapsed,
/// clipped to 48 characters followed by `…`; "새 대화" when that is empty.
pub open spec fn title_spec(ms: Seq<MessageView>) -> Seq<char> {
    let first = if users_of(ms).len() > 0 {
        users_of(ms)[0]
    } else {
        Seq::empty()
    };
    let collapsed = collapse_ws(first);
    if collapsed.len() == 0 {
        "새 대화"@
    } else if collapsed.len() > 48 {
        collapsed.take(48) + "…"@
    } else {
        collapsed
    }
}

/// What a session file holds, as values.
pub struct StoredSessionView {
    pub id: Seq<char>,
    pub title: Seq<char>,
    pub created_at: Seq<char>,
    pub updated_at: Seq<char>,
    pub messages: Seq<MessageView>,
}

impl View for StoredSession {
    type V = StoredSessionView;

    open spec fn view(&self) -> StoredSessionView {
        StoredSessionView {
            id: self.id@,
            title: self.title@,
            created_at: self.created_at@,
            updated_at: self.updated_at@,
            messages: msgs_view(self.messages@),
        }
    }
}

/// What is written for session `id` after a turn over `ms` at time `now`, the
/// earlier file created at `previous_created`: nothing without a user message.
pub open spec fn saved_spec(
    id: Seq<char>,
    ms: Seq<MessageView>,
    now: Seq<char>,
    previous_created: Option<Seq<char>>,
) -> Option<StoredSessionView> {
    if user_count(ms) == 0 {
        None
    } else {
        Some(
            StoredSessionView {
                id,
                title: title_spec(ms),
                created_at: match previous_created {
                    Some(p) => p,
                    None => now,
                },
                updated_at: now,
                messages: ms,
            },
        )
    }
}

/// The messages loaded for session `id` from what its file holds.
pub open spec fn loaded_spec(id: Seq<char>, stored: Option<StoredSessionView>) -> Option<
    Seq<MessageView>,
> {
    if valid_id(id) {
        match stored {
            Some(s) => Some(s.messages),
            None => None,
        }
    } else {
        None
    }
}

/// A saved conversation loads back as it was: what is written for a valid id
/// after a turn with a user message gives back, when read, the same messages.
pub proof fn law_saved_session_loads_back(
    id: Seq<char>,
    ms: Seq<MessageView>,
    now: Seq<char>,
    previous_created: Option<Seq<char>>,
)
    requires
        valid_id(id),
        user_count(ms) > 0,
    ensures
        loaded_spec(id, saved_spec(id, ms, now, previous_created)) == Some(ms),
{
}

/// Persistent store of sessions, one file per session in a directory.
pub struct SessionStore {
    dir: String,
}

impl SessionStore {
    /// The directory of the store.
    pub closed spec fn dir(&self) -> Seq<char> {
        self.dir@
    }

    /// A store over the directory `dir`.
    pub fn new(dir: &str) -> (r: SessionStore)
        ensures
            r.dir() == dir@,
    {
        SessionStore { dir: to_string(dir) }
    }

    /// The file of session `id`; an id that could name anything else is refused.
    pub fn path(&self, id: &str) -> (r: Result<String, SessionError>)
        ensures
            valid_id(id@) ==> (r matches Ok(p) && p@ == session_file(self.dir(), id@)),
            !valid_id(id@) ==> (r matches Err(SessionError::InvalidId(s)) && s@ == id@),
    {
        let v = chars_of(id);
        let mut ok = v.len() > 0;
        let mut i: usize = 0;
        while i < v.len()
            invariant
                i <= v@.len(),
                v@ == id@,
                ok <==> (v@.len() > 0 && forall|j: int|
                    0 <= j < i ==> is_ascii_alnum(#[trigger] v@[j]) || v@[j] == '-'),
            decreases v.len() - i,
        {
            let c = v[i];
            if !(crate::text::is_ascii_alphanumeric(c) || c == '-') {
                ok = false;
            }
            i += 1;
        }
        if !ok {
            return Err(SessionError::InvalidId(to_string(id)));
        }
        let mut name = to_string(id);
        push_str(&mut name, ".json");
        Ok(join(self.dir.as_str(), name.as_str()))
    }

    /// The messages of session `id`, given what was read from its file (`None`
    /// when there is no readable session file). An invalid id loads nothing.
    pub fn load(&self, id: &str, stored: Option<StoredSession>) -> (r: Option<Vec<ChatMessage>>)
        ensures
            r is Some <==> valid_id(id@) && stored is Some,
            r matches Some(v) ==> msgs_view(v@) == msgs_view(stored->0.messages@),
            (match r {
                Some(v) => Some(msgs_view(v@)),
                None => None,
            }) == loaded_spec(
                id@,
                match stored {
                    Some(s) => Some(s@),
                    None => None,
                },
            ),
    {
        match self.path(id) {
            Err(_) => None,
            Ok(_) => match stored {
                Some(s) => Some(s.messages),
                None => None,
            },
        }
    }

    /// What to write for session `id` after a turn: nothing for a conversation
    /// without a user message, else the session with its title, the creation time of
    /// the earlier file (`previous_created`, or `now` for a new file) and `now` as
    /// update time.
    pub fn prepare_save(
        &self,
        id: &str,
        messages: &[ChatMessage],
        now: &str,
        previous_created: Option<String>,
    ) -> (r: Result<Option<StoredSession>, SessionError>)
        ensures
            user_count(msgs_view(messages@)) == 0 ==> r matches Ok(None),
            user_count(msgs_view(messages@)) > 0 && !valid_id(id@) ==> (r matches Err(
                SessionError::InvalidId(s),
            ) && s@ == id@),
            user_count(msgs_view(messages@)) > 0 && valid_id(id@) ==> (r matches Ok(Some(s))
                && s.id@ == id@ && s.title@ == title_spec(msgs_view(messages@)) && s.created_at@
                == (match previous_created {
                Some(p) => p@,
                None => now@,
            }) && s.updated_at@ == now@ && msgs_view(s.messages@) == msgs_view(messages@)),
            valid_id(id@) ==> (r matches Ok(o) && (match o {
                Some(s) => Some(s@),
                None => None,
            }) == saved_spec(
                id@,
                msgs_view(messages@),
                now@,
                match previous_created {
                    Some(p) => Some(p@),
                    None => None,
                },
            )),
    {
        if count_users(messages) == 0 {
            return Ok(None);
        }
        match self.path(id) {
            Err(e) => Err(e),
            Ok(_) => {
                let created_at = match previous_created {
                    Some(p) => p,
                    None => to_string(now),
                };
                Ok(
                    Some(
                        StoredSession {
                            id: to_string(id),
                            title: title_from(messages),
                            created_at,
                            updated_at: to_string(now),
                            messages: copy_messages(messages),
                        },
                    ),
                )
            },
        }
    }
}

impl SessionStore {
    /// The session list, most recently updated first, from the sessions read from
    /// the store's files (files that could not be read or parsed are left out by
    /// the caller).
    pub fn list(&self, stored: Vec<StoredSession>) -> (r: Vec<SessionMeta>)
        ensures
            metas_view(r@) == sorted_newest_first(
                stored@.map_values(|s: StoredSession| meta_spec(s)),
            ),
            newest_first(metas_view(r@)),
            metas_view(r@).to_multiset() == stored@.map_values(|s: StoredSession| meta_spec(s)).to_multiset(),
    {
        let ghost want = stored@.map_values(|s: StoredSession| meta_spec(s));
        let mut metas: Vec<SessionMeta> = Vec::new();
        let mut i: usize = 0;
        while i < stored.len()
            invariant
                i <= stored@.len(),
                want == stored@.map_values(|s: StoredSession| meta_spec(s)),
                metas_view(metas@) =~= want.take(i as int),
            decreases stored.len() - i,
        {
            let m = meta_of(&stored[i]);
            metas.push(m);
            assert(want.take(i + 1) =~= want.take(i as int).push(want[i as int]));
            i += 1;
        }
        assert(want.take(want.len() as int) =~= want);
        sort_newest_first(metas)
    }
}

/// The list entry of a stored session.
pub open spec fn meta_spec(s: StoredSession) -> SessionMetaView {
    SessionMetaView {
        id: s.id@,
        title: s.title@,
        created_at: s.created_at@,
        updated_at: s.updated_at@,
        turns: user_count(msgs_view(s.messages@)) as usize,
    }
}

/// Number of user messages.
pub fn count_users(messages: &[ChatMessage]) -> (n: usize)
    ensures
        n as nat == user_count(msgs_view(messages@)),
{
    let ghost mv = msgs_view(messages@);
    let mut n: usize = 0;
    let mut i: usize = 0;
    while i < messages.len()
        invariant
            i <= messages@.len(),
            n <= i,
            mv == msgs_view(messages@),
            n as nat == user_count(mv.take(i as int)),
        decreases messages.len() - i,
    {
        assert(mv[i as int] == messages@[i as int]@);
        if messages[i].role == Role::User {
            n += 1;
        }
        i += 1;
        assert(mv.take(i as int).drop_last() =~= mv.take(i - 1));
    }
    assert(mv.take(mv.len() as int) =~= mv);
    n
}

/// Content of the first user message, if there is one.
fn first_user_content(messages: &[ChatMessage]) -> (r: String)
    ensures
        r@ == (if users_of(msgs_view(messages@)).len() > 0 {
            users_of(msgs_view(messages@))[0]
        } else {
            Seq::empty()
        }),
{
    let ghost mv = msgs_view(messages@);
    let mut i: usize = 0;
    while i < messages.len()
        invariant
            i <= messages@.len(),
            mv == msgs_view(messages@),
            users_of(mv.take(i as int)).len() == 0,
        decreases messages.len() - i,
    {
        assert(mv[i as int] == messages@[i as int]@);
        assert(mv.take(i + 1).drop_last() =~= mv.take(i as int));
        if messages[i].role == Role::User {
            proof {
                crate::history::lemma_users_of_split(mv, i + 1);
                assert(users_of(mv.take(i + 1)) =~= seq![content_or_empty(mv[i as int])]);
            }
            return match &messages[i].content {
                Some(c) => c.clone(),
                None => String::new(),
            };
        }
        i += 1;
    }
    assert(mv.take(mv.len() as int) =~= mv);
    String::new()
}

/// The title of a conversation (see [`title_spec`]).
pub fn title_from(messages: &[ChatMessage]) -> (r: String)
    ensures
        r@ == title_spec(msgs_view(messages@)),
{
    let first = first_user_content(messages);
    let collapsed = collapse_whitespace(first.as_str());
    let v = chars_of(collapsed.as_str());
    if v.len() == 0 {
        return to_string("새 대화");
    }
    if v.len() > 48 {
        let mut r = string_of_range(v.as_slice(), 0, 48);
        assert(v@.subrange(0, 48) =~= v@.take(48));
        push_str(&mut r, "…");
        r
    } else {
        string_of(v.as_slice())
    }
}

/// The list entry of a stored session.
pub fn meta_of(s: &StoredSession) -> (m: SessionMeta)
    ensures
        m.id@ == s.id@,
        m.title@ == s.title@,
        m.created_at@ == s.created_at@,
        m.updated_at@ == s.updated_at@,
        m.turns as nat == user_count(msgs_view(s.messages@)),
        m@ == meta_spec(*s),
{
    SessionMeta {
        id: s.id.clone(),
        title: s.title.clone(),
        created_at: s.created_at.clone(),
        updated_at: s.updated_at.clone(),
        turns: count_users(s.messages.as_slice()),
    }
}

} // verus!

verus! {

// ---------------------------------------------------------------------------
// Listing order
// ---------------------------------------------------------------------------

pub struct SessionMetaView {
    pub id: Seq<char>,
    pub title: Seq<char>,
    pub created_at: Seq<char>,
    pub updated_at: Seq<char>,
    pub turns: usize,
}

impl View for SessionMeta {
    type V = SessionMetaView;

    open spec fn view(&self) -> SessionMetaView {
        SessionMetaView {
            id: self.id@,
            title: self.title@,
            created_at: self.created_at@,
            updated_at: self.updated_at@,
            turns: self.turns,
        }
    }
}

/// `a[i..]` comes before `b[i..]` in lexicographic character order.
pub open spec fn lt_from(a: Seq<char>, b: Seq<char>, i: int) -> bool
    decreases a.len() - i,
{
    if i >= a.len() {
        i < b.len()
    } else if i >= b.len() {
        false
    } else if a[i] != b[i] {
        (a[i] as u32) < (b[i] as u32)
    } else {
        lt_from(a, b, i + 1)
    }
}

/// Lexicographic order of character sequences (the order of `String`'s `Ord`:
/// UTF-8 byte order and code point order agree).
pub open spec fn text_lt(a: Seq<char>, b: Seq<char>) -> bool {
    lt_from(a, b, 0)
}

pub proof fn lemma_lt_from_trans(a: Seq<char>, b: Seq<char>, c: Seq<char>, i: int)
    requires
        0 <= i,
        lt_from(a, b, i),
        lt_from(b, c, i),
    ensures
        lt_from(a, c, i),
    decreases a.len() - i,
{
    if i < a.len() && i < b.len() && i < c.len() && a[i] == b[i] && b[i] == c[i] {
        lemma_lt_from_trans(a, b, c, i + 1);
    }
}

pub proof fn lemma_lt_from_irreflexive(a: Seq<char>, i: int)
    requires
        0 <= i,
    ensures
        !lt_from(a, a, i),
    decreases a.len() - i,
{
    if i < a.len() {
        lemma_lt_from_irreflexive(a, i + 1);
    }
}

/// Most recently updated first: no entry is older than one after it.
pub open spec fn newest_first(ms: Seq<SessionMetaView>) -> bool {
    forall|i: int, j: int|
        0 <= i < j < ms.len() ==> !text_lt(#[trigger] ms[i].updated_at, #[trigger] ms[j].updated_at)
}

pub open spec fn metas_view(v: Seq<SessionMeta>) -> Seq<SessionMetaView> {
    v.map_values(|m: SessionMeta| m@)
}

/// Whether `a` comes before `b` in lexicographic order.
pub fn text_less(a: &str, b: &str) -> (r: bool)
    ensures
        r == text_lt(a@, b@),
{
    let av = chars_of(a);
    let bv = chars_of(b);
    let mut i: usize = 0;
    while i < av.len() && i < bv.len() && av[i] == bv[i]
        invariant
            i <= av@.len(),
            i <= bv@.len(),
            av@ == a@,
            bv@ == b@,
            lt_from(a@, b@, 0) == lt_from(a@, b@, i as int),
        decreases av.len() - i,
    {
        i += 1;
    }
    if i >= av.len() {
        i < bv.len()
    } else if i >= bv.len() {
        false
    } else {
        (av[i] as u32) < (bv[i] as u32)
    }
}

/// Where `x` goes in `s` when inserted newest first: before the first entry from
/// `k` on that is older (after entries updated at the same time).
pub open spec fn newest_insert_pos(s: Seq<SessionMetaView>, x: SessionMetaView, k: int) -> int
    decreases s.len() - k,
{
    if k >= s.len() || k < 0 {
        s.len() as int
    } else if text_lt(s[k].updated_at, x.updated_at) {
        k
    } else {
        newest_insert_pos(s, x, k + 1)
    }
}

/// Insertion sort, most recently updated first, which keeps entries updated at the
/// same time in their order.
pub open spec fn sorted_newest_first(v: Seq<SessionMetaView>) -> Seq<SessionMetaView>
    decreases v.len(),
{
    if v.len() == 0 {
        Seq::empty()
    } else {
        let s = sorted_newest_first(v.drop_last());
        s.insert(newest_insert_pos(s, v.last(), 0), v.last())
    }
}

proof fn lemma_insert_pos(s: Seq<SessionMetaView>, x: SessionMetaView, k: int)
    requires
        0 <= k <= s.len(),
        forall|j: int| 0 <= j < k ==> !text_lt(#[trigger] s[j].updated_at, x.updated_at),
    ensures
        k <= newest_insert_pos(s, x, k) <= s.len(),
        forall|j: int|
            0 <= j < newest_insert_pos(s, x, k) ==> !text_lt(#[trigger] s[j].updated_at, x.updated_at),
        newest_insert_pos(s, x, k) < s.len() ==> text_lt(
            s[newest_insert_pos(s, x, k)].updated_at,
            x.updated_at,
        ),
    decreases s.len() - k,
{
    if k < s.len() && !text_lt(s[k].updated_at, x.updated_at) {
        lemma_insert_pos(s, x, k + 1);
    }
}

/// Inserting at `newest_insert_pos` keeps a list most recently updated first.
proof fn lemma_insert_newest_first(rv: Seq<SessionMetaView>, x: SessionMetaView)
    requires
        newest_first(rv),
    ensures
        newest_first(rv.insert(newest_insert_pos(rv, x, 0), x)),
{
    lemma_insert_pos(rv, x, 0);
    let k = newest_insert_pos(rv, x, 0);
    let nv = rv.insert(k, x);
    assert forall|a: int, b: int| 0 <= a < b < nv.len() implies !text_lt(
        #[trigger] nv[a].updated_at,
        #[trigger] nv[b].updated_at,
    ) by {
        if a < k && b < k {
            assert(nv[a] == rv[a] && nv[b] == rv[b]);
        } else if a < k && b == k {
            assert(nv[a] == rv[a]);
        } else if a < k {
            assert(nv[a] == rv[a] && nv[b] == rv[b - 1]);
        } else if a == k {
            assert(nv[b] == rv[b - 1]);
            if text_lt(x.updated_at, rv[b - 1].updated_at) {
                if b - 1 > k {
                    assert(!text_lt(rv[k].updated_at, rv[b - 1].updated_at));
                } else {
                    lemma_lt_from_irreflexive(rv[k].updated_at, 0);
                }
                lemma_lt_from_trans(rv[k].updated_at, x.updated_at, rv[b - 1].updated_at, 0);
            }
        } else {
            assert(nv[a] == rv[a - 1] && nv[b] == rv[b - 1]);
        }
    }
}

/// Listing puts the most recently updated sessions first (no entry is older than
/// one after it) and lists every stored session exactly once.
pub proof fn law_list_newest_first(v: Seq<SessionMetaView>)
    ensures
        newest_first(sorted_newest_first(v)),
        sorted_newest_first(v).to_multiset() == v.to_multiset(),
    decreases v.len(),
{
    if v.len() > 0 {
        law_list_newest_first(v.drop_last());
        let s = sorted_newest_first(v.drop_last());
        lemma_insert_newest_first(s, v.last());
        lemma_insert_pos(s, v.last(), 0);
        let k = newest_insert_pos(s, v.last(), 0);
        vstd::seq_lib::to_multiset_insert(s, k, v.last());
        vstd::seq_lib::to_multiset_build(v.drop_last(), v.last());
        assert(v.drop_last().push(v.last()) =~= v);
        assert(v.to_multiset() == v.drop_last().to_multiset().insert(v.last()));
        assert(sorted_newest_first(v) == s.insert(k, v.last()));
    } else {
        assert(sorted_newest_first(v) =~= v);
    }
}

/// The sessions, most recently updated first (an entry is placed after those
/// updated at the same time that came before it).
pub fn sort_newest_first(metas: Vec<SessionMeta>) -> (r: Vec<SessionMeta>)
    ensures
        metas_view(r@) == sorted_newest_first(metas_view(metas@)),
        newest_first(metas_view(r@)),
        metas_view(r@).to_multiset() == metas_view(metas@).to_multiset(),
{
    let ghost input = metas_view(metas@);
    let mut r: Vec<SessionMeta> = Vec::new();
    let mut i: usize = 0;
    assert(metas_view(r@) =~= input.take(0));
    while i < metas.len()
        invariant
            i <= metas@.len(),
            input == metas_view(metas@),
            newest_first(metas_view(r@)),
            metas_view(r@).to_multiset() == input.take(i as int).to_multiset(),
            metas_view(r@) == sorted_newest_first(input.take(i as int)),
        decreases metas.len() - i,
    {
        let x = &metas[i];
        let ghost rv = metas_view(r@);
        let mut k: usize = 0;
        while k < r.len() && !text_less(r[k].updated_at.as_str(), x.updated_at.as_str())
            invariant
                k <= r@.len(),
                rv == metas_view(r@),
                forall|j: int| 0 <= j < k ==> !text_lt(#[trigger] rv[j].updated_at, x@.updated_at),
                newest_insert_pos(rv, x@, 0) == newest_insert_pos(rv, x@, k as int),
            decreases r.len() - k,
        {
            assert(rv[k as int] == r@[k as int]@);
            k += 1;
        }
        proof {
            if k < r@.len() {
                assert(rv[k as int] == r@[k as int]@);
                assert(text_lt(rv[k as int].updated_at, x@.updated_at));
            }
        }
        let m = SessionMeta {
            id: x.id.clone(),
            title: x.title.clone(),
            created_at: x.created_at.clone(),
            updated_at: x.updated_at.clone(),
            turns: x.turns,
        };
        r.insert(k, m);
        proof {
            let nv = metas_view(r@);
            assert(nv =~= rv.insert(k as int, x@));
            assert(newest_insert_pos(rv, x@, k as int) == k);
            assert(input.take(i + 1).drop_last() =~= input.take(i as int));
            lemma_insert_newest_first(rv, x@);
            assert(input.take(i + 1) =~= input.take(i as int).push(input[i as int]));
            assert(input[i as int] == x@);
            vstd::seq_lib::to_multiset_insert(rv, k as int, x@);
            vstd::seq_lib::to_multiset_build(input.take(i as int), input[i as int]);
        }
        i += 1;
    }
    assert(input.take(input.len() as int) =~= input);
    r
}

} // verus!

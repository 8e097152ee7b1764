//! Tool-call markup that leaks into answer text.
//!
//! A model sometimes writes a tool call as text ("<tool_call> <function=...>")
//! that the server could not parse. Everything from the first marker on is a
//! call attempt, never part of the answer: it is cut from stored answers, and a
//! stream guard stops it before it reaches the user, also when a marker arrives
//! split over several deltas.
use vstd::prelude::*;

use crate::fallback::earliest_of;
use crate::localsearch::{first_pos, lemma_first_sub_unique};
use crate::text::{chars_of, find_chars, has_sub, push_chars, string_of, string_of_range, sub_at, trim_end};

verus! {

/// The openings of tool-call markup.
pub open spec fn markup_markers() -> Seq<Seq<char>> {
    seq!["<tool_call"@, "<function="@]
}

pub open spec fn has_marker(s: Seq<char>) -> bool {
    has_sub(s, "<tool_call"@) || has_sub(s, "<function="@)
}

/// The answer text before the first marker, trailing white space removed; the
/// text unchanged when it holds no marker.
pub open spec fn strip_markup_spec(s: Seq<char>) -> Seq<char> {
    if has_marker(s) {
        trim_end(s.take(earliest_of(s, markup_markers())))
    } else {
        s
    }
}

/// Position of the first marker in `v` (`v.len()` when there is none).
fn first_marker(v: &[char]) -> (r: usize)
    ensures
        r as int == earliest_of(v@, markup_markers()),
        r <= v@.len(),
{
    let ms: [&str; 2] = ["<tool_call", "<function="];
    let ghost mv = markup_markers();
    let mut cut = v.len();
    let mut i: usize = 0;
    while i < 2
        invariant
            i <= 2,
            mv == markup_markers(),
            forall|j: int| 0 <= j < 2 ==> (#[trigger] ms@[j])@ == mv[j],
            cut as int == earliest_of(v@, mv.take(i as int)),
            cut <= v@.len(),
        decreases 2 - i,
    {
        assert(mv.take(i + 1).drop_last() =~= mv.take(i as int));
        let d = chars_of(ms[i]);
        match find_chars(v, d.as_slice()) {
            Some(p) => {
                proof {
                    lemma_first_sub_unique(v@, d@, p as int);
                }
                if p < cut {
                    cut = p;
                }
            },
            None => {},
        }
        i += 1;
    }
    assert(mv.take(2) =~= mv);
    cut
}

/// Cuts tool-call markup off an answer (see [`strip_markup_spec`]).
pub fn strip_tool_markup(content: &mut String)
    ensures
        final(content)@ == strip_markup_spec(old(content)@),
{
    let v = chars_of(content.as_str());
    let cut = first_marker(v.as_slice());
    if !contains_marker(v.as_slice()) {
        return;
    }
    let k = crate::text::trim_end_len(v.as_slice(), cut);
    assert(v@.take(cut as int).take(k as int) =~= v@.subrange(0, k as int));
    *content = string_of_range(v.as_slice(), 0, k);
}

/// Whether `v` holds a marker.
pub fn contains_marker(v: &[char]) -> (r: bool)
    ensures
        r == has_marker(v@),
{
    let a = chars_of("<tool_call");
    let b = chars_of("<function=");
    crate::text::contains_chars(v, a.as_slice()) || crate::text::contains_chars(v, b.as_slice())
}

} // verus!

verus! {

// ---------------------------------------------------------------------------
// Stream guard
// ---------------------------------------------------------------------------

/// `t` is a prefix of a marker (of at most a marker's length).
pub open spec fn is_marker_prefix(t: Seq<char>) -> bool {
    (t.len() <= 10 && "<tool_call"@.take(t.len() as int) =~= t) || (t.len() <= 10
        && "<function="@.take(t.len() as int) =~= t)
}

/// The longest suffix of `s`, of at most `k` characters, that begins a marker.
pub open spec fn held_from(s: Seq<char>, k: int) -> int
    decreases k,
{
    if k <= 0 {
        0
    } else if is_marker_prefix(s.skip(s.len() - k)) {
        k
    } else {
        held_from(s, k - 1)
    }
}

/// Length of the longest non-empty suffix of `s` (at most 9 characters, one less
/// than a marker) that could be the start of a marker.
pub open spec fn held_len(s: Seq<char>) -> int {
    held_from(s, if s.len() < 9 {
        s.len() as int
    } else {
        9
    })
}

/// Holds back the answer stream from the first tool-call marker on.
pub struct MarkupStreamGuard {
    pending: String,
    blocked: bool,
    /// Everything emitted since the last `finish`.
    emitted: Ghost<Seq<char>>,
    /// Everything received since the last `finish`.
    received: Ghost<Seq<char>>,
}

/// `o` is `d` cut somewhere between the end of the text before the first marker,
/// trailing white space removed, and that marker.
pub open spec fn cut_before_marker(d: Seq<char>, o: Seq<char>) -> bool {
    let p = earliest_of(d, markup_markers());
    &&& o == d.take(o.len() as int)
    &&& o.len() <= p
    &&& trim_end(d.take(p)).len() <= o.len()
}

impl MarkupStreamGuard {
    /// Text held back because it could be the start of a marker.
    pub closed spec fn pending(&self) -> Seq<char> {
        self.pending@
    }

    /// A marker was seen: the rest of this completion is dropped.
    pub closed spec fn blocked(&self) -> bool {
        self.blocked
    }

    /// The text emitted since the last `finish`.
    pub closed spec fn emitted(&self) -> Seq<char> {
        self.emitted@
    }

    /// The deltas received since the last `finish`, joined.
    pub closed spec fn received(&self) -> Seq<char> {
        self.received@
    }

    /// What the completion shows once `finish` has given its tail.
    pub open spec fn shown(&self) -> Seq<char> {
        self.emitted() + if self.blocked() {
            Seq::<char>::empty()
        } else {
            self.pending()
        }
    }

    /// Consistency of the guard: while it is not blocked, what it emitted followed by
    /// what it holds is all it received, holds no marker, and no tail of it that
    /// starts in the emitted text could begin a marker; the emitted text never holds
    /// a marker.
    pub closed spec fn wf(&self) -> bool {
        let all = self.emitted@ + self.pending@;
        &&& !has_marker(self.emitted@)
        &&& self.blocked ==> has_marker(self.received@) && cut_before_marker(
            self.received@,
            self.emitted@,
        )
        &&& !self.blocked ==> {
            &&& all == self.received@
            &&& !has_marker(all)
            &&& forall|p: int|
                0 <= p < self.emitted@.len() && all.len() - p <= 9 ==> !is_marker_prefix(
                    #[trigger] all.skip(p),
                )
        }
    }

    /// A guard that has received nothing.
    pub fn new() -> (g: MarkupStreamGuard)
        ensures
            g.wf(),
            g.pending() == Seq::<char>::empty(),
            !g.blocked(),
            g.emitted() == Seq::<char>::empty(),
            g.received() == Seq::<char>::empty(),
    {
        let g = MarkupStreamGuard {
            pending: String::new(),
            blocked: false,
            emitted: Ghost(Seq::empty()),
            received: Ghost(Seq::empty()),
        };
        assert(g.emitted@ + g.pending@ =~= Seq::<char>::empty());
        proof {
            lemma_no_marker_empty();
        }
        g
    }

    /// Takes the next delta of the answer and returns what can be shown now: the
    /// text before the first marker (then nothing more until `finish`), holding
    /// back a tail that could still become a marker.
    pub fn push(&mut self, delta: &str) -> (out: String)
        requires
            old(self).wf(),
        ensures
            final(self).wf(),
            !has_marker(out@),
            final(self).emitted() == old(self).emitted() + out@,
            final(self).received() == old(self).received() + delta@,
            old(self).blocked() ==> (out@ == Seq::<char>::empty() && final(self).pending() == old(self).pending()
                && final(self).blocked()),
            !old(self).blocked() && has_marker(old(self).pending() + delta@) ==> (final(self).blocked()
                && final(self).pending() == Seq::<char>::empty() && out@ == trim_end(
                (old(self).pending() + delta@).take(earliest_of(old(self).pending() + delta@, markup_markers())),
            )),
            !old(self).blocked() && !has_marker(old(self).pending() + delta@) ==> (!final(self).blocked()
                && out@ + final(self).pending() == old(self).pending() + delta@ && final(self).pending().len()
                == held_len(old(self).pending() + delta@)),
    {
        if self.blocked {
            proof {
                lemma_no_marker_empty();
                assert(self.emitted@ + Seq::<char>::empty() =~= self.emitted@);
                lemma_cut_extends(self.received@, delta@, self.emitted@);
            }
            self.received = Ghost(self.received@ + delta@);
            return String::new();
        }
        let ghost received = self.received@;
        let ghost seen = self.emitted@;
        let ghost old_pending = self.pending@;
        let mut t = chars_of(self.pending.as_str());
        let dv = chars_of(delta);
        let mut i: usize = 0;
        while i < dv.len()
            invariant
                i <= dv@.len(),
                t@ =~= old_pending + dv@.take(i as int),
            decreases dv.len() - i,
        {
            t.push(dv[i]);
            i += 1;
        }
        assert(dv@.take(dv@.len() as int) =~= dv@);
        assert(dv@ == delta@);
        if contains_marker(t.as_slice()) {
            let cut = first_marker(t.as_slice());
            let k = crate::text::trim_end_len(t.as_slice(), cut);
            assert(t@.take(cut as int).take(k as int) =~= t@.subrange(0, k as int));
            let out = string_of_range(t.as_slice(), 0, k);
            proof {
                lemma_before_first_marker(t@);
                lemma_trim_end_no_marker(t@.take(cut as int));
                lemma_extend_no_marker(seen, old_pending, dv@, out@);
                lemma_cut_when_blocking(seen, old_pending, dv@, cut as int, out@);
                assert(received + delta@ =~= seen + (old_pending + dv@));
            }
            self.pending = String::new();
            self.blocked = true;
            self.emitted = Ghost(seen + out@);
            self.received = Ghost(received + delta@);
            return out;
        }
        let hold = marker_prefix_suffix_len(t.as_slice());
        let cut = t.len() - hold;
        let out = string_of_range(t.as_slice(), 0, cut);
        let rest = string_of_range(t.as_slice(), cut, t.len());
        proof {
            assert(out@ + rest@ =~= t@);
            lemma_no_marker_prefix(t@, cut as int);
            lemma_keep_going(seen, old_pending, dv@, cut as int);
        }
        self.pending = rest;
        self.emitted = Ghost(seen + out@);
        self.received = Ghost(received + delta@);
        assert(self.emitted@ + self.pending@ =~= received + delta@);
        out
    }

    /// End of a completion: returns the held-back tail (nothing when blocked) and
    /// readies the guard for the next completion.
    pub fn finish(&mut self) -> (out: String)
        requires
            old(self).wf(),
        ensures
            final(self).wf(),
            !has_marker(old(self).emitted() + out@),
            out@ == (if old(self).blocked() {
                Seq::<char>::empty()
            } else {
                old(self).pending()
            }),
            final(self).pending() == Seq::<char>::empty(),
            !final(self).blocked(),
            final(self).emitted() == Seq::<char>::empty(),
            final(self).received() == Seq::<char>::empty(),
    {
        let out = if self.blocked {
            String::new()
        } else {
            let p = string_of(chars_of(self.pending.as_str()).as_slice());
            p
        };
        proof {
            if self.blocked {
                assert(self.emitted@ + out@ =~= self.emitted@);
            }
            lemma_no_marker_empty();
        }
        self.pending = String::new();
        self.blocked = false;
        self.emitted = Ghost(Seq::empty());
        self.received = Ghost(Seq::empty());
        assert(self.emitted@ + self.pending@ =~= Seq::<char>::empty());
        out
    }
}

impl Default for MarkupStreamGuard {
    fn default() -> (g: MarkupStreamGuard)
        ensures
            g.wf(),
            g.pending() == Seq::<char>::empty(),
            !g.blocked(),
            g.emitted() == Seq::<char>::empty(),
            g.received() == Seq::<char>::empty(),
    {
        MarkupStreamGuard::new()
    }
}

/// Length of the longest suffix of `s` (at most 9 characters) that could begin a
/// marker (0 when none).
pub fn marker_prefix_suffix_len(s: &[char]) -> (k: usize)
    ensures
        k as int == held_len(s@),
        k <= s@.len(),
{
    let a = chars_of("<tool_call");
    let b = chars_of("<function=");
    proof {
        lemma_marker_lens();
    }
    let mut k: usize = if s.len() < 9 {
        s.len()
    } else {
        9
    };
    let ghost top = k as int;
    while k > 0
        invariant
            k <= s@.len(),
            k <= 9,
            a@ == "<tool_call"@,
            b@ == "<function="@,
            held_len(s@) == held_from(s@, k as int),
        decreases k,
    {
        let start = s.len() - k;
        let suffix = crate::paths::slice_to_vec(s, start, s.len());
        assert(suffix@ =~= s@.skip(s@.len() - k));
        proof {
            lemma_marker_lens();
        }
        let pa = prefix_of(suffix.as_slice(), a.as_slice());
        let pb = prefix_of(suffix.as_slice(), b.as_slice());
        if pa || pb {
            assert(is_marker_prefix(suffix@));
            return k;
        }
        assert(!is_marker_prefix(suffix@));
        assert(!is_marker_prefix(s@.skip(s@.len() - k)));
        k -= 1;
    }
    0
}

/// `t` is a prefix of `m` (at most as long as `m`).
fn prefix_of(t: &[char], m: &[char]) -> (r: bool)
    ensures
        r == (t@.len() <= m@.len() && m@.take(t@.len() as int) =~= t@),
{
    if t.len() > m.len() {
        return false;
    }
    let mut i: usize = 0;
    while i < t.len()
        invariant
            i <= t@.len() <= m@.len(),
            forall|j: int| 0 <= j < i ==> t@[j] == m@[j],
        decreases t.len() - i,
    {
        if t[i] != m[i] {
            assert(m@.take(t@.len() as int)[i as int] != t@[i as int]);
            return false;
        }
        i += 1;
    }
    assert(m@.take(t@.len() as int) =~= t@);
    true
}

// ---------------------------------------------------------------------------
// Proofs about markers
// ---------------------------------------------------------------------------

proof fn lemma_marker_lens()
    ensures
        "<tool_call"@.len() == 10,
        "<function="@.len() == 10,
        "<tool_call"@[0] == '<',
        "<function="@[0] == '<',
{
    reveal_strlit("<tool_call");
    reveal_strlit("<function=");
}

proof fn lemma_no_marker_empty()
    ensures
        !has_marker(Seq::<char>::empty()),
{
    lemma_marker_lens();
}

/// An occurrence of `m` in a sequence lies in one of its pieces or straddles them.
proof fn lemma_sub_in_prefix(s: Seq<char>, m: Seq<char>, n: int, j: int)
    requires
        0 <= n <= s.len(),
        sub_at(s.take(n), m, j),
    ensures
        sub_at(s, m, j),
{
    assert(s.take(n).subrange(j, j + m.len()) =~= s.subrange(j, j + m.len()));
}

/// The text before the first marker holds no marker.
proof fn lemma_before_first_marker(t: Seq<char>)
    requires
        has_marker(t),
    ensures
        !has_marker(t.take(earliest_of(t, markup_markers()))),
        0 <= earliest_of(t, markup_markers()) <= t.len(),
{
    lemma_marker_lens();
    let ms = markup_markers();
    let c = earliest_of(t, ms);
    crate::fallback::lemma_earliest_bounds(t, ms);
    assert forall|k: int| 0 <= k < 2 implies !has_sub(t.take(c), #[trigger] ms[k]) by {
        let d = ms[k];
        if has_sub(t.take(c), d) {
            let j = choose|j: int| sub_at(t.take(c), d, j);
            lemma_sub_in_prefix(t, d, c, j);
            crate::fallback::lemma_first_occurrence(t, d, j);
            crate::fallback::lemma_earliest_le(t, ms, k);
        }
    }
    assert(ms[0] == "<tool_call"@ && ms[1] == "<function="@);
}

proof fn lemma_trim_end_no_marker(s: Seq<char>)
    requires
        !has_marker(s),
    ensures
        !has_marker(trim_end(s)),
    decreases s.len(),
{
    if s.len() > 0 && crate::text::is_ws(s.last()) {
        if has_sub(s.drop_last(), "<tool_call"@) {
            let j = choose|j: int| sub_at(s.drop_last(), "<tool_call"@, j);
            lemma_sub_in_prefix(s, "<tool_call"@, s.len() - 1, j);
        }
        if has_sub(s.drop_last(), "<function="@) {
            let j = choose|j: int| sub_at(s.drop_last(), "<function="@, j);
            lemma_sub_in_prefix(s, "<function="@, s.len() - 1, j);
        }
        lemma_trim_end_no_marker(s.drop_last());
    }
}

/// A prefix of a text without markers has none.
proof fn lemma_no_marker_prefix(t: Seq<char>, n: int)
    requires
        !has_marker(t),
        0 <= n <= t.len(),
    ensures
        !has_marker(t.take(n)),
{
    if has_sub(t.take(n), "<tool_call"@) {
        let j = choose|j: int| sub_at(t.take(n), "<tool_call"@, j);
        lemma_sub_in_prefix(t, "<tool_call"@, n, j);
    }
    if has_sub(t.take(n), "<function="@) {
        let j = choose|j: int| sub_at(t.take(n), "<function="@, j);
        lemma_sub_in_prefix(t, "<function="@, n, j);
    }
}

/// The emitted text grows by a part of `pending + delta` that ends before the first
/// marker: no marker appears in what was emitted.
proof fn lemma_extend_no_marker(seen: Seq<char>, pending: Seq<char>, delta: Seq<char>, out: Seq<char>)
    requires
        !has_marker(seen),
        !has_marker(seen + pending),
        forall|p: int|
            0 <= p < seen.len() && (seen + pending).len() - p <= 9 ==> !is_marker_prefix(
                #[trigger] (seen + pending).skip(p),
            ),
        !has_marker(out),
        out.len() <= (pending + delta).len(),
        (pending + delta).take(out.len() as int) == out,
    ensures
        !has_marker(seen + out),
{
    lemma_marker_lens();
    lemma_extend_one(seen, pending, delta, out, "<tool_call"@);
    lemma_extend_one(seen, pending, delta, out, "<function="@);
}

proof fn lemma_extend_one(
    seen: Seq<char>,
    pending: Seq<char>,
    delta: Seq<char>,
    out: Seq<char>,
    m: Seq<char>,
)
    requires
        m == "<tool_call"@ || m == "<function="@,
        !has_marker(seen),
        !has_marker(seen + pending),
        forall|p: int|
            0 <= p < seen.len() && (seen + pending).len() - p <= 9 ==> !is_marker_prefix(
                #[trigger] (seen + pending).skip(p),
            ),
        !has_marker(out),
        out.len() <= (pending + delta).len(),
        (pending + delta).take(out.len() as int) == out,
    ensures
        !has_sub(seen + out, m),
{
    lemma_marker_lens();
    if has_sub(seen + out, m) {
        let j = choose|j: int| sub_at(seen + out, m, j);
        if j >= seen.len() {
            assert((seen + out).subrange(j, j + 10) =~= out.subrange(
                j - seen.len(),
                j - seen.len() + 10,
            ));
            assert(sub_at(out, m, j - seen.len()));
        } else if j + 10 <= seen.len() {
            assert((seen + out).subrange(j, j + 10) =~= seen.subrange(j, j + 10));
            assert(sub_at(seen, m, j));
        } else if j + 10 <= (seen + pending).len() {
            assert((seen + out).subrange(j, j + 10) =~= (seen + pending).subrange(j, j + 10));
            assert(sub_at(seen + pending, m, j));
        } else {
            // the marker starts in `seen` and runs past `pending`
            let sp = seen + pending;
            assert(sp.skip(j) =~= m.take(sp.len() - j));
            assert(is_marker_prefix(sp.skip(j)));
        }
    }
}

proof fn lemma_whole_one(seen: Seq<char>, pending: Seq<char>, delta: Seq<char>, m: Seq<char>)
    requires
        m == "<tool_call"@ || m == "<function="@,
        !has_marker(seen + pending),
        forall|p: int|
            0 <= p < seen.len() && (seen + pending).len() - p <= 9 ==> !is_marker_prefix(
                #[trigger] (seen + pending).skip(p),
            ),
        !has_marker(pending + delta),
    ensures
        !has_sub(seen + pending + delta, m),
{
    lemma_marker_lens();
    let all2 = seen + pending + delta;
    let t = pending + delta;
    if has_sub(all2, m) {
        let j = choose|j: int| sub_at(all2, m, j);
        if j >= seen.len() {
            assert(all2.subrange(j, j + 10) =~= t.subrange(j - seen.len(), j - seen.len() + 10));
            assert(sub_at(t, m, j - seen.len()));
        } else if j + 10 <= (seen + pending).len() {
            assert(all2.subrange(j, j + 10) =~= (seen + pending).subrange(j, j + 10));
            assert(sub_at(seen + pending, m, j));
        } else {
            let sp = seen + pending;
            assert(sp.skip(j) =~= m.take(sp.len() - j));
            assert(is_marker_prefix(sp.skip(j)));
        }
    }
}

/// Emitting all but the held-back tail keeps the guard consistent.
proof fn lemma_keep_going(seen: Seq<char>, pending: Seq<char>, delta: Seq<char>, cut: int)
    requires
        !has_marker(seen),
        !has_marker(seen + pending),
        forall|p: int|
            0 <= p < seen.len() && (seen + pending).len() - p <= 9 ==> !is_marker_prefix(
                #[trigger] (seen + pending).skip(p),
            ),
        !has_marker(pending + delta),
        0 <= cut <= (pending + delta).len(),
        (pending + delta).len() - cut == held_len(pending + delta),
    ensures
        ({
            let t = pending + delta;
            let seen2 = seen + t.take(cut);
            let all2 = seen2 + t.skip(cut);
            &&& !has_marker(seen2)
            &&& !has_marker(all2)
            &&& forall|p: int|
                0 <= p < seen2.len() && all2.len() - p <= 9 ==> !is_marker_prefix(
                    #[trigger] all2.skip(p),
                )
        }),
{
    lemma_marker_lens();
    let t = pending + delta;
    let seen2 = seen + t.take(cut);
    let all2 = seen2 + t.skip(cut);
    assert(all2 =~= seen + pending + delta);
    lemma_no_marker_prefix(t, cut);
    lemma_extend_no_marker(seen, pending, delta, t.take(cut));
    // no marker in the whole text
    lemma_whole_one(seen, pending, delta, "<tool_call"@);
    lemma_whole_one(seen, pending, delta, "<function="@);
    // no tail starting in the emitted text begins a marker
    assert forall|p: int| 0 <= p < seen2.len() && all2.len() - p <= 9 implies !is_marker_prefix(
        #[trigger] all2.skip(p),
    ) by {
        if p >= seen.len() {
            let q = p - seen.len();
            assert(all2.skip(p) =~= t.skip(q));
            lemma_held_maximal(t, q);
        } else {
            let sp = seen + pending;
            if is_marker_prefix(all2.skip(p)) {
                assert(sp.skip(p) =~= all2.skip(p).take(sp.len() - p));
                lemma_prefix_of_marker_prefix(all2.skip(p), sp.len() - p);
            }
        }
    }
}

/// A shorter start of a marker prefix is a marker prefix.
proof fn lemma_prefix_of_marker_prefix(t: Seq<char>, n: int)
    requires
        is_marker_prefix(t),
        0 <= n <= t.len(),
    ensures
        is_marker_prefix(t.take(n)),
{
    lemma_marker_lens();
    if t.len() <= 10 && "<tool_call"@.take(t.len() as int) =~= t {
        assert("<tool_call"@.take(n) =~= "<tool_call"@.take(t.len() as int).take(n));
        assert("<tool_call"@.take(n) =~= t.take(n));
    } else {
        assert("<function="@.take(n) =~= "<function="@.take(t.len() as int).take(n));
        assert("<function="@.take(n) =~= t.take(n));
    }
}

/// No suffix longer than the held one (and of at most 9 characters) begins a marker.
proof fn lemma_held_maximal(t: Seq<char>, q: int)
    requires
        0 <= q < t.len() - held_len(t),
        t.len() - q <= 9,
    ensures
        !is_marker_prefix(t.skip(q)),
{
    let top = if t.len() < 9 {
        t.len() as int
    } else {
        9
    };
    lemma_held_from(t, top, t.len() - q);
}

proof fn lemma_held_from(t: Seq<char>, k: int, len: int)
    requires
        held_from(t, k) < len <= k,
        len <= t.len(),
    ensures
        !is_marker_prefix(t.skip(t.len() - len)),
    decreases k,
{
    if k > 0 && !is_marker_prefix(t.skip(t.len() - k)) && len < k {
        lemma_held_from(t, k - 1, len);
    }
}

/// A marker begins at `j`.
pub open spec fn marker_at(s: Seq<char>, j: int) -> bool {
    sub_at(s, "<tool_call"@, j) || sub_at(s, "<function="@, j)
}

/// The first marker of `s` begins at `p`.
pub open spec fn first_marker_at(s: Seq<char>, p: int) -> bool {
    marker_at(s, p) && forall|j: int| 0 <= j < p ==> !#[trigger] marker_at(s, j)
}

/// The position `earliest_of` gives is where the first marker begins.
proof fn lemma_earliest_is_first(s: Seq<char>)
    requires
        has_marker(s),
    ensures
        first_marker_at(s, earliest_of(s, markup_markers())),
        earliest_of(s, markup_markers()) + 10 <= s.len(),
{
    lemma_marker_lens();
    let m0 = "<tool_call"@;
    let m1 = "<function="@;
    let ms = markup_markers();
    assert(ms.drop_last() =~= seq![m0]);
    assert(seq![m0].drop_last() =~= Seq::<Seq<char>>::empty());
    reveal_with_fuel(earliest_of, 3);
    if has_sub(s, m0) {
        let i = choose|i: int| sub_at(s, m0, i);
        crate::fallback::lemma_first_occurrence(s, m0, i);
    }
    if has_sub(s, m1) {
        let i = choose|i: int| sub_at(s, m1, i);
        crate::fallback::lemma_first_occurrence(s, m1, i);
    }
    let p = earliest_of(s, ms);
    assert forall|j: int| 0 <= j < p implies !#[trigger] marker_at(s, j) by {
        if has_sub(s, m0) {
            assert(!sub_at(s, m0, j));
        }
        if has_sub(s, m1) {
            assert(!sub_at(s, m1, j));
        }
    }
}

proof fn lemma_first_marker_unique(s: Seq<char>, p: int, q: int)
    requires
        first_marker_at(s, p),
        first_marker_at(s, q),
    ensures
        p == q,
{
    if p < q {
        assert(marker_at(s, p));
    } else if q < p {
        assert(marker_at(s, q));
    }
}

/// Text received after the first marker does not move it.
proof fn lemma_first_marker_extends(d: Seq<char>, x: Seq<char>, p: int)
    requires
        first_marker_at(d, p),
        p + 10 <= d.len(),
    ensures
        first_marker_at(d + x, p),
{
    lemma_marker_lens();
    let dx = d + x;
    assert(dx.subrange(p, p + 10) =~= d.subrange(p, p + 10));
    assert forall|j: int| 0 <= j < p implies !#[trigger] marker_at(dx, j) by {
        assert(dx.subrange(j, j + 10) =~= d.subrange(j, j + 10));
        if marker_at(dx, j) {
            assert(marker_at(d, j));
        }
    }
}

/// Once blocked, more deltas keep the emitted text a cut before the first marker.
proof fn lemma_cut_extends(d: Seq<char>, x: Seq<char>, o: Seq<char>)
    requires
        has_marker(d),
        cut_before_marker(d, o),
    ensures
        has_marker(d + x),
        cut_before_marker(d + x, o),
{
    lemma_earliest_is_first(d);
    let p = earliest_of(d, markup_markers());
    lemma_first_marker_extends(d, x, p);
    let dx = d + x;
    if sub_at(dx, "<tool_call"@, p) {
    } else {
        assert(sub_at(dx, "<function="@, p));
    }
    lemma_earliest_is_first(dx);
    lemma_first_marker_unique(dx, p, earliest_of(dx, markup_markers()));
    assert(dx.take(p) =~= d.take(p));
    assert(dx.take(o.len() as int) =~= d.take(o.len() as int));
}

/// Dropping trailing white space from `a + b` takes at least what it takes from `b`.
proof fn lemma_trim_end_concat_len(a: Seq<char>, b: Seq<char>)
    ensures
        trim_end(a + b).len() <= a.len() + trim_end(b).len(),
    decreases b.len(),
{
    if b.len() == 0 {
        assert(a + b =~= a);
        lemma_trim_end_len(a);
    } else if crate::text::is_ws(b.last()) {
        assert((a + b).drop_last() =~= a + b.drop_last());
        lemma_trim_end_concat_len(a, b.drop_last());
    }
}

proof fn lemma_trim_end_len(s: Seq<char>)
    ensures
        trim_end(s).len() <= s.len(),
    decreases s.len(),
{
    if s.len() > 0 && crate::text::is_ws(s.last()) {
        lemma_trim_end_len(s.drop_last());
    }
}

/// The push that meets the first marker emits a cut before it.
proof fn lemma_cut_when_blocking(
    seen: Seq<char>,
    pending: Seq<char>,
    delta: Seq<char>,
    cut: int,
    out: Seq<char>,
)
    requires
        !has_marker(seen + pending),
        forall|p: int|
            0 <= p < seen.len() && (seen + pending).len() - p <= 9 ==> !is_marker_prefix(
                #[trigger] (seen + pending).skip(p),
            ),
        has_marker(pending + delta),
        cut == earliest_of(pending + delta, markup_markers()),
        out.len() <= cut,
        out == (pending + delta).take(out.len() as int),
        out == trim_end((pending + delta).take(cut)),
    ensures
        has_marker(seen + (pending + delta)),
        cut_before_marker(seen + (pending + delta), seen + out),
{
    lemma_marker_lens();
    let t = pending + delta;
    let d = seen + t;
    lemma_earliest_is_first(t);
    let q = seen.len() + cut;
    assert(d.subrange(q, q + 10) =~= t.subrange(cut, cut + 10));
    assert(marker_at(d, q));
    assert forall|j: int| 0 <= j < q implies !#[trigger] marker_at(d, j) by {
        if j >= seen.len() {
            assert(d.subrange(j, j + 10) =~= t.subrange(j - seen.len(), j - seen.len() + 10));
            assert(!marker_at(t, j - seen.len()));
        } else {
            let sp = seen + pending;
            if marker_at(d, j) {
                let m = if sub_at(d, "<tool_call"@, j) {
                    "<tool_call"@
                } else {
                    "<function="@
                };
                assert(sub_at(d, m, j));
                assert(d =~= sp + delta);
                if j + 10 <= sp.len() {
                    assert(d.subrange(j, j + 10) =~= sp.subrange(j, j + 10));
                    assert(sub_at(sp, m, j));
                } else {
                    assert(sp.skip(j) =~= m.take(sp.len() - j));
                    assert(is_marker_prefix(sp.skip(j)));
                }
            }
        }
    }
    assert(first_marker_at(d, q));
    if sub_at(d, "<tool_call"@, q) {
    } else {
        assert(sub_at(d, "<function="@, q));
    }
    lemma_earliest_is_first(d);
    lemma_first_marker_unique(d, q, earliest_of(d, markup_markers()));
    assert(d.take(q) =~= seen + t.take(cut));
    lemma_trim_end_concat_len(seen, t.take(cut));
    assert(seen + out =~= d.take((seen + out).len() as int));
}

} // verus!

verus! {

/// What a completion shows in the end (all it emitted, then what `finish` gives)
/// is all it received when no tool-call marker came, and otherwise the received
/// text cut at a point between the end of the text before the first marker
/// (trailing white space removed) and that marker.
pub proof fn law_guard_shows_text_before_first_marker(g: MarkupStreamGuard)
    requires
        g.wf(),
    ensures
        !has_marker(g.received()) ==> g.shown() == g.received(),
        has_marker(g.received()) ==> cut_before_marker(g.received(), g.shown()),
{
    assert(g.emitted() + Seq::<char>::empty() =~= g.emitted());
}

/// What a guard lets through during one completion never holds a tool-call
/// marker, also when a marker arrives split over several deltas.
pub proof fn law_guard_never_emits_marker(g: MarkupStreamGuard)
    requires
        g.wf(),
    ensures
        !has_marker(g.emitted()),
{
}

} // verus!

//! Lexical path model and the workspace write guard.
//!
//! Paths are read the same way on every platform: both `/` and `\` separate
//! components, and a path is absolute when it starts with a separator or with a
//! drive letter followed by `:` and a separator (`C:\`, `d:/`). Nothing here
//! touches the file system: outputs may not exist yet when they are checked.
use vstd::prelude::*;

use crate::text::{
    chars_of, lower_text, push_char, push_chars, push_str, string_of, string_of_range,
    to_lowercase, to_string,
};

verus! {

pub open spec fn is_sep(c: char) -> bool {
    c == '/' || c == '\\'
}

pub open spec fn is_ascii_alpha(c: char) -> bool {
    ('a' <= c && c <= 'z') || ('A' <= c && c <= 'Z')
}

/// A path is absolute when it starts with a separator or with `X:` and a separator.
pub open spec fn is_abs(p: Seq<char>) -> bool {
    (p.len() > 0 && is_sep(p[0])) || (p.len() >= 3 && is_ascii_alpha(p[0]) && p[1] == ':'
        && is_sep(p[2]))
}

/// Appends a finished component, skipping empty ones and `.`.
pub open spec fn push_comp(done: Seq<Seq<char>>, cur: Seq<char>) -> Seq<Seq<char>> {
    if cur.len() == 0 || cur =~= seq!['.'] {
        done
    } else {
        done.push(cur)
    }
}

/// Left-to-right split state: finished components and the component being read.
pub open spec fn split_state(p: Seq<char>) -> (Seq<Seq<char>>, Seq<char>)
    decreases p.len(),
{
    if p.len() == 0 {
        (Seq::empty(), Seq::empty())
    } else {
        let (done, cur) = split_state(p.drop_last());
        let c = p.last();
        if is_sep(c) {
            (push_comp(done, cur), Seq::empty())
        } else {
            (done, cur.push(c))
        }
    }
}

/// The components of a path: the non-empty pieces between separators, `.` left out.
pub open spec fn components(p: Seq<char>) -> Seq<Seq<char>> {
    let (done, cur) = split_state(p);
    push_comp(done, cur)
}

pub open spec fn has_parent_dir(p: Seq<char>) -> bool {
    components(p).contains(seq!['.', '.'])
}

/// Why a path was refused by the workspace guard.
#[derive(Clone, Debug)]
pub enum PathError {
    /// A relative path where an absolute one is needed.
    NotAbsolute { path: String },
    /// A path that climbs with `..`.
    ParentDir { path: String },
    /// A write target outside the workspace.
    OutsideWorkspace { path: String, workspace: String },
}

pub enum PathErrorView {
    NotAbsolute { path: Seq<char> },
    ParentDir { path: Seq<char> },
    OutsideWorkspace { path: Seq<char>, workspace: Seq<char> },
}

impl View for PathError {
    type V = PathErrorView;

    open spec fn view(&self) -> PathErrorView {
        match self {
            PathError::NotAbsolute { path } => PathErrorView::NotAbsolute { path: path@ },
            PathError::ParentDir { path } => PathErrorView::ParentDir { path: path@ },
            PathError::OutsideWorkspace { path, workspace } => PathErrorView::OutsideWorkspace {
                path: path@,
                workspace: workspace@,
            },
        }
    }
}

/// The text shown for a refused path.
pub open spec fn path_error_text(e: PathErrorView) -> Seq<char> {
    match e {
        PathErrorView::NotAbsolute { path } => "절대경로가 필요함: "@ + path,
        PathErrorView::ParentDir { path } => "경로에 .. 사용 불가: "@ + path,
        PathErrorView::OutsideWorkspace { path, workspace } => "워크스페이스 밖에는 쓸 수 없음: "@
            + path + ". 파일 생성/수정/삭제는 워크스페이스("@ + workspace
            + ") 안의 경로로 다시 시도하세요."@,
    }
}

/// Reading on after a separator: the components of `x + y`, where `x` ends a
/// component (its last piece is empty), are those of `x` followed by those of `y`.
pub proof fn lemma_split_state_concat(x: Seq<char>, y: Seq<char>)
    requires
        split_state(x).1.len() == 0,
    ensures
        split_state(x + y).0 == split_state(x).0 + split_state(y).0,
        split_state(x + y).1 == split_state(y).1,
    decreases y.len(),
{
    if y.len() == 0 {
        assert(x + y =~= x);
        assert(split_state(x).0 + Seq::<Seq<char>>::empty() =~= split_state(x).0);
    } else {
        lemma_split_state_concat(x, y.drop_last());
        assert((x + y).drop_last() =~= x + y.drop_last());
        assert((x + y).last() == y.last());
        let (dx, _) = split_state(x);
        let (dy, cy) = split_state(y.drop_last());
        if cy.len() == 0 || cy =~= seq!['.'] {
        } else {
            assert(dx + dy.push(cy) =~= (dx + dy).push(cy));
        }
    }
}

/// The components of `x + y`, where `x` ends a component.
pub proof fn lemma_components_concat(x: Seq<char>, y: Seq<char>)
    requires
        split_state(x).1.len() == 0,
    ensures
        components(x + y) == split_state(x).0 + components(y),
{
    lemma_split_state_concat(x, y);
    let (dy, cy) = split_state(y);
    if cy.len() == 0 || cy =~= seq!['.'] {
    } else {
        assert(split_state(x).0 + dy.push(cy) =~= (split_state(x).0 + dy).push(cy));
    }
}

/// A separator ends a component: the components of `a` followed by a separator are
/// those of `a`, and nothing is left open.
pub proof fn lemma_split_state_sep(a: Seq<char>, c: char)
    requires
        is_sep(c),
    ensures
        split_state(a.push(c)).0 == components(a),
        split_state(a.push(c)).1.len() == 0,
{
    assert(a.push(c).drop_last() =~= a);
}

/// The workspace guard accepts no write target that climbs with `..` and no
/// relative one.
pub proof fn law_guard_refuses_climbing_and_relative(path: Seq<char>, ws: Seq<char>)
    requires
        path.len() > 0,
        has_parent_dir(path) || !is_abs(path),
    ensures
        ensure_spec(path, ws) is Err,
{
}

/// The workspace itself, and anything under it, is a valid write target (for an
/// absolute workspace path without `..`).
pub proof fn law_guard_accepts_workspace_and_below(ws: Seq<char>, rel: Seq<char>, sep: char)
    requires
        ws.len() > 0,
        is_abs(ws),
        !has_parent_dir(ws),
        !has_parent_dir(rel),
        !is_abs(rel),
        is_sep(sep),
    ensures
        ensure_spec(ws, ws) is Ok,
        ensure_spec(join_with(ws, rel, sep), ws) is Ok,
{
    let w = components(ws).map_values(|c: Seq<char>| lower_text(c));
    assert(w.take(w.len() as int) =~= w);
    let j = join_with(ws, rel, sep);
    if is_sep(ws.last()) {
        lemma_split_state_sep(ws.drop_last(), ws.last());
        assert(ws.drop_last().push(ws.last()) =~= ws);
        lemma_components_concat(ws, rel);
        assert(j == ws + rel);
    } else {
        let d = ws.push(sep);
        lemma_split_state_sep(ws, sep);
        lemma_components_concat(d, rel);
        assert(j =~= d + rel);
    }
    let cj = components(j);
    assert(cj == components(ws) + components(rel));
    assert(is_abs(j)) by {
        assert(j.len() >= ws.len());
        assert(j.take(ws.len() as int) =~= ws);
        assert(j[0] == ws[0]);
        if ws.len() >= 3 {
            assert(j[1] == ws[1] && j[2] == ws[2]);
        }
    }
    assert(!has_parent_dir(j)) by {
        if cj.contains(seq!['.', '.']) {
            let k = choose|k: int| 0 <= k < cj.len() && cj[k] == seq!['.', '.'];
            if k < components(ws).len() {
                assert(components(ws)[k] == cj[k]);
            } else {
                assert(components(rel)[k - components(ws).len()] == cj[k]);
            }
        }
    }
    let t = cj.map_values(|c: Seq<char>| lower_text(c));
    assert(t.take(w.len() as int) =~= w);
}

/// Whether a component of `p` is `..`.
pub fn contains_parent_dir(p: &str) -> (r: bool)
    ensures
        r == has_parent_dir(p@),
{
    let v = chars_of(p);
    let cs = split_components(v.as_slice());
    let ghost cv = cs@.map_values(|c: Vec<char>| c@);
    let mut i: usize = 0;
    while i < cs.len()
        invariant
            i <= cs@.len(),
            cv == cs@.map_values(|c: Vec<char>| c@),
            cv == components(p@),
            forall|j: int| 0 <= j < i ==> cv[j] != seq!['.', '.'],
        decreases cs.len() - i,
    {
        if is_dotdot(&cs[i]) {
            assert(cv[i as int] == seq!['.', '.']);
            return true;
        }
        i += 1;
    }
    assert(!cv.contains(seq!['.', '.']));
    false
}

/// Lower-cased components of an absolute path; an empty path has none.
pub open spec fn normalize_spec(p: Seq<char>) -> Result<Seq<Seq<char>>, PathErrorView> {
    if p.len() == 0 {
        Ok(Seq::empty())
    } else if !is_abs(p) {
        Err(PathErrorView::NotAbsolute { path: p })
    } else if has_parent_dir(p) {
        Err(PathErrorView::ParentDir { path: p })
    } else {
        Ok(components(p).map_values(|c: Seq<char>| lower_text(c)))
    }
}

/// `w` is a leading part of `t`, component by component.
pub open spec fn comp_prefix(w: Seq<Seq<char>>, t: Seq<Seq<char>>) -> bool {
    w.len() <= t.len() && t.take(w.len() as int) =~= w
}

/// The workspace guard: `Ok` when `path` lies in `ws` (or `ws` is unknown, i.e. empty).
pub open spec fn ensure_spec(path: Seq<char>, ws: Seq<char>) -> Result<(), PathErrorView> {
    match normalize_spec(path) {
        Err(e) => Err(e),
        Ok(t) => match normalize_spec(ws) {
            Err(e) => Err(e),
            Ok(w) => if w.len() == 0 || comp_prefix(w, t) {
                Ok(())
            } else {
                Err(PathErrorView::OutsideWorkspace { path, workspace: ws })
            },
        },
    }
}

/// The separator that `Path::join` puts between `base` and `rel`: the platform's
/// `std::path::MAIN_SEPARATOR` (`\` on Windows, `/` elsewhere), the same for any
/// two paths in one build.
pub uninterp spec fn join_separator(base: Seq<char>, rel: Seq<char>) -> char;

/// Reads `std::path::MAIN_SEPARATOR`, the separator that `Path::join` adds; it is
/// named [`join_separator`] of the two paths joined. std documents it as the
/// platform's primary separator, `/` or `\`; which of the two this build has is
/// left open.
#[verifier::external_body]
fn main_separator(_base: &str, _rel: &str) -> (c: char)
    ensures
        c == join_separator(_base@, _rel@),
        is_sep(c),
{
    std::path::MAIN_SEPARATOR
}

/// `rel` read against `base` with separator `sep`: an absolute `rel` stays,
/// otherwise `sep` goes between them unless `base` already ends in a separator.
pub open spec fn join_with(base: Seq<char>, rel: Seq<char>, sep: char) -> Seq<char> {
    if is_abs(rel) {
        rel
    } else if base.len() == 0 {
        rel
    } else if is_sep(base.last()) {
        base + rel
    } else {
        base.push(sep) + rel
    }
}

/// `rel` read against `base` as `Path::join` reads it.
pub open spec fn join_spec(base: Seq<char>, rel: Seq<char>) -> Seq<char> {
    join_with(base, rel, join_separator(base, rel))
}

/// Index just after the last separator of `p` (0 when there is none).
pub open spec fn name_start(p: Seq<char>) -> int
    decreases p.len(),
{
    if p.len() == 0 {
        0
    } else if is_sep(p.last()) {
        p.len() as int
    } else {
        name_start(p.drop_last())
    }
}

/// The last name of a path (after its last separator).
pub open spec fn file_name_spec(p: Seq<char>) -> Seq<char> {
    p.subrange(name_start(p), p.len() as int)
}

/// The directory part of a path, separator included (empty for a bare name).
pub open spec fn dir_part(p: Seq<char>) -> Seq<char> {
    p.take(name_start(p))
}

/// Position of the dot that starts the extension of a name: the last `.` that is
/// not the first character.
pub open spec fn ext_dot(name: Seq<char>, upto: int) -> Option<int>
    decreases upto,
{
    if upto <= 1 {
        None
    } else if name[upto - 1] == '.' {
        Some(upto - 1)
    } else {
        ext_dot(name, upto - 1)
    }
}

pub open spec fn extension_spec(name: Seq<char>) -> Option<Seq<char>> {
    match ext_dot(name, name.len() as int) {
        Some(i) => Some(name.subrange(i + 1, name.len() as int)),
        None => None,
    }
}

pub open spec fn stem_spec(name: Seq<char>) -> Seq<char> {
    match ext_dot(name, name.len() as int) {
        Some(i) => name.take(i),
        None => name,
    }
}

// ---------------------------------------------------------------------------

proof fn lemma_name_start_bounds(p: Seq<char>)
    ensures
        0 <= name_start(p) <= p.len(),
        forall|j: int| name_start(p) <= j < p.len() ==> !is_sep(#[trigger] p[j]),
        name_start(p) > 0 ==> is_sep(p[name_start(p) - 1]),
    decreases p.len(),
{
    if p.len() > 0 && !is_sep(p.last()) {
        lemma_name_start_bounds(p.drop_last());
        assert forall|j: int| name_start(p) <= j < p.len() implies !is_sep(#[trigger] p[j]) by {
            if j < p.len() - 1 {
                assert(p.drop_last()[j] == p[j]);
            }
        }
    }
}

proof fn lemma_ext_dot_bounds(name: Seq<char>, upto: int)
    requires
        upto <= name.len(),
    ensures
        match ext_dot(name, upto) {
            Some(i) => 1 <= i < upto && name[i] == '.' && forall|j: int|
                i < j < upto ==> name[j] != '.',
            None => forall|j: int| 1 <= j < upto ==> name[j] != '.',
        },
    decreases upto,
{
    if upto > 1 && name[upto - 1] != '.' {
        lemma_ext_dot_bounds(name, upto - 1);
    }
}

/// Index just after the last separator.
pub fn name_start_index(p: &[char]) -> (k: usize)
    ensures
        k as int == name_start(p@),
        k <= p@.len(),
{
    let mut k = p.len();
    assert(p@.take(k as int) =~= p@);
    while k > 0 && !(p[k - 1] == '/' || p[k - 1] == '\\')
        invariant
            k <= p@.len(),
            name_start(p@) == name_start(p@.take(k as int)),
        decreases k,
    {
        assert(p@.take(k as int).drop_last() =~= p@.take(k - 1));
        k -= 1;
    }
    proof {
        if k > 0 {
            assert(p@.take(k as int).last() == p@[k - 1]);
        }
    }
    k
}

/// Position of the extension dot of `name`.
pub fn ext_dot_index(name: &[char]) -> (r: Option<usize>)
    ensures
        match r {
            Some(i) => ext_dot(name@, name@.len() as int) == Some(i as int),
            None => ext_dot(name@, name@.len() as int) is None,
        },
{
    let mut k = name.len();
    while k > 1 && name[k - 1] != '.'
        invariant
            k <= name@.len(),
            ext_dot(name@, name@.len() as int) == ext_dot(name@, k as int),
        decreases k,
    {
        k -= 1;
    }
    if k > 1 {
        Some(k - 1)
    } else {
        None
    }
}

/// The last name of a path.
pub fn file_name_of(p: &str) -> (r: String)
    ensures
        r@ == file_name_spec(p@),
{
    let v = chars_of(p);
    let k = name_start_index(v.as_slice());
    string_of_range(v.as_slice(), k, v.len())
}

/// The stem of the last name of a path (`Path::file_stem`).
pub fn file_stem_of(p: &str) -> (r: String)
    ensures
        r@ == stem_spec(file_name_spec(p@)),
{
    let v = chars_of(p);
    let k = name_start_index(v.as_slice());
    let nv = slice_to_vec(v.as_slice(), k, v.len());
    assert(nv@ == file_name_spec(p@));
    match ext_dot_index(nv.as_slice()) {
        Some(i) => {
            proof {
                lemma_ext_dot_bounds(nv@, nv@.len() as int);
            }
            let r = string_of_range(nv.as_slice(), 0, i);
            assert(nv@.subrange(0, i as int) =~= nv@.take(i as int));
            r
        },
        None => string_of(nv.as_slice()),
    }
}

/// The extension of the last name of a path (`Path::extension`).
pub fn extension_of(p: &str) -> (r: Option<String>)
    ensures
        match r {
            Some(e) => extension_spec(file_name_spec(p@)) == Some(e@),
            None => extension_spec(file_name_spec(p@)) is None,
        },
{
    let v = chars_of(p);
    let k = name_start_index(v.as_slice());
    let nv = slice_to_vec(v.as_slice(), k, v.len());
    match ext_dot_index(nv.as_slice()) {
        Some(i) => {
            proof {
                lemma_ext_dot_bounds(nv@, nv@.len() as int);
            }
            Some(string_of_range(nv.as_slice(), i + 1, nv.len()))
        },
        None => None,
    }
}

/// A copy of `v[from..to]`.
pub fn slice_to_vec(v: &[char], from: usize, to: usize) -> (r: Vec<char>)
    requires
        from <= to <= v@.len(),
    ensures
        r@ == v@.subrange(from as int, to as int),
{
    let mut r: Vec<char> = Vec::new();
    let mut i = from;
    while i < to
        invariant
            from <= i <= to <= v@.len(),
            r@ =~= v@.subrange(from as int, i as int),
        decreases to - i,
    {
        r.push(v[i]);
        i += 1;
    }
    r
}

pub fn is_absolute(p: &[char]) -> (r: bool)
    ensures
        r == is_abs(p@),
{
    (p.len() > 0 && (p[0] == '/' || p[0] == '\\')) || (p.len() >= 3 && (('a' <= p[0] && p[0]
        <= 'z') || ('A' <= p[0] && p[0] <= 'Z')) && p[1] == ':' && (p[2] == '/' || p[2] == '\\'))
}

/// The components of a path.
pub fn split_components(p: &[char]) -> (r: Vec<Vec<char>>)
    ensures
        r@.map_values(|c: Vec<char>| c@) == components(p@),
{
    let mut done: Vec<Vec<char>> = Vec::new();
    let mut cur: Vec<char> = Vec::new();
    let mut i: usize = 0;
    while i < p.len()
        invariant
            i <= p@.len(),
            (done@.map_values(|c: Vec<char>| c@), cur@) == split_state(p@.take(i as int)),
        decreases p.len() - i,
    {
        let c = p[i];
        assert(p@.take(i + 1).drop_last() =~= p@.take(i as int));
        if c == '/' || c == '\\' {
            let ghost d0 = done@.map_values(|c: Vec<char>| c@);
            let dot = cur.len() == 1 && cur[0] == '.';
            if cur.len() > 0 && !dot {
                done.push(cur);
                assert(done@.map_values(|c: Vec<char>| c@) =~= d0.push(cur@));
            } else {
                assert(cur@.len() == 0 || cur@ =~= seq!['.']);
            }
            cur = Vec::new();
        } else {
            cur.push(c);
        }
        i += 1;
    }
    assert(p@.take(p@.len() as int) =~= p@);
    let ghost d0 = done@.map_values(|c: Vec<char>| c@);
    let dot = cur.len() == 1 && cur[0] == '.';
    if cur.len() > 0 && !dot {
        done.push(cur);
        assert(done@.map_values(|c: Vec<char>| c@) =~= d0.push(cur@));
    } else {
        assert(cur@.len() == 0 || cur@ =~= seq!['.']);
    }
    done
}

fn is_dotdot(c: &Vec<char>) -> (r: bool)
    ensures
        r == (c@ =~= seq!['.', '.']),
{
    c.len() == 2 && c[0] == '.' && c[1] == '.'
}

/// Lower-cased components of an absolute path (`Ok` of none for the empty path).
pub fn normalize(p: &str) -> (r: Result<Vec<String>, PathError>)
    ensures
        match r {
            Ok(v) => normalize_spec(p@) == Ok::<Seq<Seq<char>>, PathErrorView>(
                v@.map_values(|s: String| s@),
            ),
            Err(e) => normalize_spec(p@) == Err::<Seq<Seq<char>>, PathErrorView>(e@),
        },
{
    let v = chars_of(p);
    if v.len() == 0 {
        let r: Vec<String> = Vec::new();
        assert(r@.map_values(|s: String| s@) =~= Seq::<Seq<char>>::empty());
        return Ok(r);
    }
    if !is_absolute(v.as_slice()) {
        return Err(PathError::NotAbsolute { path: to_string(p) });
    }
    let comps = split_components(v.as_slice());
    let ghost cs = comps@.map_values(|c: Vec<char>| c@);
    let mut out: Vec<String> = Vec::new();
    let mut i: usize = 0;
    while i < comps.len()
        invariant
            i <= comps@.len(),
            cs == comps@.map_values(|c: Vec<char>| c@),
            cs == components(p@),
            is_abs(p@),
            p@.len() > 0,
            forall|j: int| 0 <= j < i ==> cs[j] != seq!['.', '.'],
            out@.map_values(|s: String| s@) =~= cs.take(i as int).map_values(
                |c: Seq<char>| lower_text(c),
            ),
        decreases comps.len() - i,
    {
        if is_dotdot(&comps[i]) {
            assert(cs[i as int] == seq!['.', '.']);
            assert(components(p@).contains(seq!['.', '.']));
            return Err(PathError::ParentDir { path: to_string(p) });
        }
        let s = string_of(comps[i].as_slice());
        let low = to_lowercase(s.as_str());
        out.push(low);
        i += 1;
        assert(cs.take(i as int).map_values(|c: Seq<char>| lower_text(c)) =~= cs.take(
            i - 1,
        ).map_values(|c: Seq<char>| lower_text(c)).push(lower_text(cs[i - 1])));
    }
    assert(cs.take(cs.len() as int) =~= cs);
    assert(!components(p@).contains(seq!['.', '.']));
    assert(out@.map_values(|s: String| s@) =~= components(p@).map_values(
        |c: Seq<char>| lower_text(c),
    ));
    Ok(out)
}

/// Whether `w` is a leading part of `t`.
fn is_comp_prefix(w: &Vec<String>, t: &Vec<String>) -> (r: bool)
    ensures
        r == comp_prefix(w@.map_values(|s: String| s@), t@.map_values(|s: String| s@)),
{
    let ghost wv = w@.map_values(|s: String| s@);
    let ghost tv = t@.map_values(|s: String| s@);
    if w.len() > t.len() {
        return false;
    }
    let mut i: usize = 0;
    while i < w.len()
        invariant
            w@.len() <= t@.len(),
            i <= w@.len(),
            wv == w@.map_values(|s: String| s@),
            tv == t@.map_values(|s: String| s@),
            forall|j: int| 0 <= j < i ==> tv[j] == wv[j],
        decreases w.len() - i,
    {
        if !(w[i] == t[i]) {
            assert(tv.take(wv.len() as int)[i as int] != wv[i as int]);
            return false;
        }
        i += 1;
    }
    assert(tv.take(wv.len() as int) =~= wv);
    true
}

/// Checks that a write target lies inside the workspace. Relative targets and
/// targets that climb with `..` are refused; separators and letter case are
/// normalised. An empty workspace path means "unknown" and restricts nothing.
pub fn ensure_in_workspace(path: &str, workspace: &str) -> (r: Result<(), PathError>)
    ensures
        match r {
            Ok(()) => ensure_spec(path@, workspace@) is Ok,
            Err(e) => ensure_spec(path@, workspace@) == Err::<(), PathErrorView>(e@),
        },
{
    let t = match normalize(path) {
        Ok(t) => t,
        Err(e) => return Err(e),
    };
    let w = match normalize(workspace) {
        Ok(w) => w,
        Err(e) => return Err(e),
    };
    if w.len() == 0 || is_comp_prefix(&w, &t) {
        return Ok(());
    }
    Err(PathError::OutsideWorkspace { path: to_string(path), workspace: to_string(workspace) })
}

impl PathError {
    /// The message shown for the refusal.
    pub fn message(&self) -> (r: String)
        ensures
            r@ == path_error_text(self@),
    {
        let mut r = String::new();
        match self {
            PathError::NotAbsolute { path } => {
                push_str(&mut r, "절대경로가 필요함: ");
                push_str(&mut r, path.as_str());
            },
            PathError::ParentDir { path } => {
                push_str(&mut r, "경로에 .. 사용 불가: ");
                push_str(&mut r, path.as_str());
            },
            PathError::OutsideWorkspace { path, workspace } => {
                push_str(&mut r, "워크스페이스 밖에는 쓸 수 없음: ");
                push_str(&mut r, path.as_str());
                push_str(&mut r, ". 파일 생성/수정/삭제는 워크스페이스(");
                push_str(&mut r, workspace.as_str());
                push_str(&mut r, ") 안의 경로로 다시 시도하세요.");
            },
        }
        r
    }
}

/// `rel` read against `base` (`Path::join`, with the platform's separator).
pub fn join(base: &str, rel: &str) -> (r: String)
    ensures
        r@ == join_spec(base@, rel@),
        is_sep(join_separator(base@, rel@)),
{
    let sep = main_separator(base, rel);
    let rv = chars_of(rel);
    if is_absolute(rv.as_slice()) {
        return to_string(rel);
    }
    let bv = chars_of(base);
    if bv.len() == 0 {
        return to_string(rel);
    }
    let mut r = string_of(bv.as_slice());
    let last = bv[bv.len() - 1];
    if !(last == '/' || last == '\\') {
        push_char(&mut r, sep);
    }
    push_chars(&mut r, rv.as_slice());
    r
}

/// A relative or bare output name read against the workspace; absolute paths stay.
pub fn absorb_into_workspace(path: &str, ws: &str) -> (r: String)
    ensures
        r@ == (if is_abs(path@) {
            path@
        } else {
            join_spec(ws@, path@)
        }),
{
    join(ws, path)
}

/// The directory part of `p` followed by `name` (`Path::with_file_name`).
pub fn with_file_name(p: &str, name: &str) -> (r: String)
    ensures
        r@ == dir_part(p@) + name@,
{
    let v = chars_of(p);
    let k = name_start_index(v.as_slice());
    let mut r = string_of_range(v.as_slice(), 0, k);
    assert(v@.subrange(0, k as int) =~= v@.take(k as int));
    push_str(&mut r, name);
    r
}

/// Where an output without an explicit path goes: next to an input that lies in
/// the workspace, else at the workspace root.
pub open spec fn default_output_spec(input: Seq<char>, file_name: Seq<char>, ws: Seq<char>) -> Seq<
    char,
> {
    if ensure_spec(dir_part(input), ws) is Ok {
        dir_part(input) + file_name
    } else {
        join_spec(ws, file_name)
    }
}

/// The default output path for a result named `file_name` made from `input`.
pub fn default_output_in_workspace(input: &str, file_name: &str, ws: &str) -> (r: String)
    ensures
        r@ == default_output_spec(input@, file_name@, ws@),
{
    let v = chars_of(input);
    let k = name_start_index(v.as_slice());
    let dir = string_of_range(v.as_slice(), 0, k);
    assert(v@.subrange(0, k as int) =~= v@.take(k as int));
    match ensure_in_workspace(dir.as_str(), ws) {
        Ok(()) => {
            let mut r = dir;
            push_str(&mut r, file_name);
            r
        },
        Err(_) => join(ws, file_name),
    }
}

/// Replaces every `\` by `/`.
pub fn to_slashes(s: &str) -> (r: String)
    ensures
        r@ == s@.map_values(|c: char| if c == '\\' { '/' } else { c }),
{
    let v = chars_of(s);
    let mut r = String::new();
    let mut i: usize = 0;
    while i < v.len()
        invariant
            i <= v@.len(),
            v@ == s@,
            r@ =~= v@.take(i as int).map_values(|c: char| if c == '\\' { '/' } else { c }),
        decreases v.len() - i,
    {
        let c = v[i];
        push_char(&mut r, if c == '\\' { '/' } else { c });
        i += 1;
    }
    assert(v@.take(v@.len() as int) =~= v@);
    r
}

} // verus!

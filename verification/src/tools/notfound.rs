//! What a tool answers when the file it was given does not exist: a hint at a file
//! of the same or a similar name nearby (found by a bounded scan that the caller
//! performs step by step), or else the instruction to ask the user.
use vstd::prelude::*;

use crate::fallback::{file_name_opt, path_file_name};
use crate::args::slashes;
use crate::models::opt_view;
use crate::paths::{components, extension_spec, file_name_spec, is_abs, stem_spec};
use crate::text::{chars_of, has_sub, lower_text, push_str, string_of, to_lowercase, to_string};

verus! {

/// Entries looked at before the scan gives up.
pub const MAX_SCANNED: usize = 500;

/// Directories deeper than this below a starting directory are not entered.
pub const MAX_DEPTH: u8 = 2;

/// Two paths name the same place (same components, both absolute or both not).
pub open spec fn same_path(a: Seq<char>, b: Seq<char>) -> bool {
    is_abs(a) == is_abs(b) && components(a) == components(b)
}

/// The lower-cased stem and extension of a file name (no extension: empty).
pub open spec fn lower_stem(name: Seq<char>) -> Seq<char> {
    lower_text(stem_spec(file_name_spec(name)))
}

pub open spec fn lower_ext(name: Seq<char>) -> Seq<char> {
    match extension_spec(file_name_spec(name)) {
        Some(e) => lower_text(e),
        None => Seq::empty(),
    }
}

/// A file is a likely typo of the requested one: same (non-empty) extension, a stem
/// of at least 3 characters, and one stem contains the other.
pub open spec fn similar(req_stem: Seq<char>, req_ext: Seq<char>, stem: Seq<char>, ext: Seq<char>) -> bool {
    req_ext.len() > 0 && ext == req_ext && stem.len() >= 3 && (has_sub(req_stem, stem) || has_sub(
        stem,
        req_stem,
    ))
}

/// What to do after an entry of the scan.
pub enum EntryStep {
    /// Go on with the next entry.
    Next,
    /// Stop reading this directory: too many entries were looked at.
    StopDir,
    /// A file of the requested name: this is the hint.
    Found(String),
}

/// A scan for the requested file around the workspace.
pub struct HintSearch {
    /// The requested path.
    pub requested: String,
    /// Its file name.
    pub name: String,
    pub req_stem: String,
    pub req_ext: String,
    /// Directories still to read, with their depth; the last is read next.
    pub queue: Vec<(String, u8)>,
    /// The first similar file seen.
    pub fuzzy: Option<String>,
    pub scanned: usize,
}

pub open spec fn dirs_view(q: Seq<(String, u8)>) -> Seq<(Seq<char>, u8)> {
    q.map_values(|e: (String, u8)| (e.0@, e.1))
}

pub open spec fn found_text(p: Seq<char>) -> Seq<char> {
    " 같은 이름의 파일 발견: "@ + slashes(p) + " — 이 경로로 다시 시도하세요."@
}

pub open spec fn similar_text(p: Seq<char>) -> Seq<char> {
    " 비슷한 파일 발견: "@ + slashes(p) + " — 이 경로로 다시 시도하세요."@
}

fn slashed(p: &str) -> (r: String)
    ensures
        r@ == slashes(p@),
{
    let r = crate::paths::to_slashes(p);
    assert(r@ =~= slashes(p@));
    r
}

impl HintSearch {
    /// A scan for `requested` that reads the parent `ws_parent` of the workspace first
    /// (where there is one: a workspace narrowed to a sub-folder is the usual mistake),
    /// then the workspace `ws`; `None` when the requested path names no file.
    pub fn start(requested: &str, ws: &str, ws_parent: Option<&str>) -> (r: Option<HintSearch>)
        ensures
            path_file_name(requested@) is None ==> r is None,
            path_file_name(requested@) matches Some(n) ==> (r matches Some(s) && s.requested@
                == requested@ && s.name@ == n && s.req_stem@ == lower_stem(n) && s.req_ext@
                == lower_ext(n) && s.fuzzy is None && s.scanned == 0 && dirs_view(s.queue@) == (
            match ws_parent {
                Some(p) => seq![(ws@, 0u8), (p@, 1u8)],
                None => seq![(ws@, 0u8)],
            })),
    {
        let rv = chars_of(requested);
        let name = match file_name_opt(rv.as_slice()) {
            Some(n) => string_of(n.as_slice()),
            None => return None,
        };
        let stem = crate::paths::file_stem_of(name.as_str());
        let ext = match crate::paths::extension_of(name.as_str()) {
            Some(e) => to_lowercase(e.as_str()),
            None => String::new(),
        };
        let mut queue: Vec<(String, u8)> = Vec::new();
        queue.push((to_string(ws), 0));
        match ws_parent {
            Some(p) => queue.push((to_string(p), 1)),
            None => {},
        }
        let s = HintSearch {
            requested: to_string(requested),
            name,
            req_stem: to_lowercase(stem.as_str()),
            req_ext: ext,
            queue,
            fuzzy: None,
            scanned: 0,
        };
        assert(dirs_view(s.queue@) =~= match ws_parent {
            Some(p) => seq![(ws@, 0u8), (p@, 1u8)],
            None => seq![(ws@, 0u8)],
        });
        Some(s)
    }

    /// The next directory to read, with its depth.
    pub fn next_dir(&mut self) -> (r: Option<(String, u8)>)
        ensures
            old(self).queue@.len() == 0 ==> r is None && dirs_view(final(self).queue@) == dirs_view(
                old(self).queue@,
            ),
            old(self).queue@.len() > 0 ==> (r matches Some(d) && (d.0@, d.1) == dirs_view(
                old(self).queue@,
            ).last() && dirs_view(final(self).queue@) == dirs_view(old(self).queue@).drop_last()),
            final(self).requested@ == old(self).requested@,
            final(self).name@ == old(self).name@,
            final(self).req_stem@ == old(self).req_stem@,
            final(self).req_ext@ == old(self).req_ext@,
            final(self).fuzzy == old(self).fuzzy,
            final(self).scanned == old(self).scanned,
    {
        let ghost q0 = dirs_view(self.queue@);
        let r = self.queue.pop();
        proof {
            if q0.len() > 0 {
                assert(dirs_view(self.queue@) =~= q0.drop_last());
            }
        }
        r
    }

    /// Looks at an entry `path` of a directory read at depth `depth`: a directory is
    /// queued while not too deep, a file of the requested name ends the scan with a
    /// hint, and the first similar file is remembered.
    pub fn on_entry(&mut self, path: &str, is_file: bool, is_dir: bool, depth: u8) -> (r: EntryStep)
        requires
            old(self).scanned < usize::MAX,
        ensures
            final(self).scanned == old(self).scanned + 1,
            final(self).requested@ == old(self).requested@,
            final(self).name@ == old(self).name@,
            final(self).req_stem@ == old(self).req_stem@,
            final(self).req_ext@ == old(self).req_ext@,
            old(self).scanned + 1 > MAX_SCANNED ==> r is StopDir && dirs_view(final(self).queue@)
                == dirs_view(old(self).queue@) && final(self).fuzzy == old(self).fuzzy,
            old(self).scanned + 1 <= MAX_SCANNED ==> ({
                let skip = same_path(path@, old(self).requested@) || !is_file;
                let queued = if skip && is_dir && depth < MAX_DEPTH {
                    dirs_view(old(self).queue@).push((path@, (depth + 1) as u8))
                } else {
                    dirs_view(old(self).queue@)
                };
                let n = path_file_name(path@);
                &&& dirs_view(final(self).queue@) == queued
                &&& skip ==> r is Next && final(self).fuzzy == old(self).fuzzy
                &&& !skip && n == Some(old(self).name@) ==> (r matches EntryStep::Found(h) && h@
                    == found_text(path@)) && final(self).fuzzy == old(self).fuzzy
                &&& !skip && n != Some(old(self).name@) ==> r is Next && opt_view(final(self).fuzzy)
                    == (if old(self).fuzzy is None && n is Some && similar(
                    old(self).req_stem@,
                    old(self).req_ext@,
                    lower_stem(n->0),
                    lower_ext(n->0),
                ) {
                    Some(path@)
                } else {
                    opt_view(old(self).fuzzy)
                })
            }),
    {
        self.scanned = self.scanned + 1;
        if self.scanned > MAX_SCANNED {
            return EntryStep::StopDir;
        }
        let same = same_path_of(path, self.requested.as_str());
        if same || !is_file {
            if is_dir && depth < MAX_DEPTH {
                let ghost q0 = dirs_view(self.queue@);
                self.queue.push((to_string(path), depth + 1));
                assert(dirs_view(self.queue@) =~= q0.push((path@, (depth + 1) as u8)));
            }
            return EntryStep::Next;
        }
        let pv = chars_of(path);
        let n = match file_name_opt(pv.as_slice()) {
            Some(n) => n,
            None => return EntryStep::Next,
        };
        let nstr = string_of(n.as_slice());
        if crate::text::text_eq(nstr.as_str(), self.name.as_str()) {
            let mut h = to_string(" 같은 이름의 파일 발견: ");
            let sl = slashed(path);
            push_str(&mut h, sl.as_str());
            push_str(&mut h, " — 이 경로로 다시 시도하세요.");
            return EntryStep::Found(h);
        }
        if self.fuzzy.is_none() {
            let stem = to_lowercase(crate::paths::file_stem_of(nstr.as_str()).as_str());
            let ext = match crate::paths::extension_of(nstr.as_str()) {
                Some(e) => to_lowercase(e.as_str()),
                None => String::new(),
            };
            let req_ext_len = chars_of(self.req_ext.as_str()).len();
            if req_ext_len > 0 && crate::text::text_eq(ext.as_str(), self.req_ext.as_str())
                && chars_of(stem.as_str()).len() >= 3 && (crate::text::contains(
                self.req_stem.as_str(),
                stem.as_str(),
            ) || crate::text::contains(stem.as_str(), self.req_stem.as_str())) {
                self.fuzzy = Some(to_string(path));
            }
        }
        EntryStep::Next
    }

    /// The hint once the scan is over: the similar file, if one was seen (empty when
    /// nothing came close).
    pub fn finish(&self) -> (r: String)
        ensures
            r@ == match self.fuzzy {
                Some(p) => similar_text(p@),
                None => Seq::<char>::empty(),
            },
    {
        match &self.fuzzy {
            Some(p) => {
                let mut h = to_string(" 비슷한 파일 발견: ");
                let sl = slashed(p.as_str());
                push_str(&mut h, sl.as_str());
                push_str(&mut h, " — 이 경로로 다시 시도하세요.");
                h
            },
            None => String::new(),
        }
    }
}

/// Whether two paths name the same place.
fn same_path_of(a: &str, b: &str) -> (r: bool)
    ensures
        r == same_path(a@, b@),
{
    let av = chars_of(a);
    let bv = chars_of(b);
    if crate::paths::is_absolute(av.as_slice()) != crate::paths::is_absolute(bv.as_slice()) {
        return false;
    }
    let ac = crate::paths::split_components(av.as_slice());
    let bc = crate::paths::split_components(bv.as_slice());
    let ghost acv = ac@.map_values(|c: Vec<char>| c@);
    let ghost bcv = bc@.map_values(|c: Vec<char>| c@);
    assert(acv == components(a@) && bcv == components(b@));
    if ac.len() != bc.len() {
        assert(acv.len() != bcv.len());
        return false;
    }
    let mut i: usize = 0;
    while i < ac.len()
        invariant
            i <= ac@.len(),
            ac@.len() == bc@.len(),
            acv == ac@.map_values(|c: Vec<char>| c@),
            bcv == bc@.map_values(|c: Vec<char>| c@),
            acv == components(a@),
            bcv == components(b@),
            is_abs(a@) == is_abs(b@),
            forall|j: int| 0 <= j < i ==> acv[j] == bcv[j],
        decreases ac.len() - i,
    {
        let x = string_of(ac[i].as_slice());
        let y = string_of(bc[i].as_slice());
        if !crate::text::text_eq(x.as_str(), y.as_str()) {
            assert(acv[i as int] != bcv[i as int]);
            assert(acv != bcv);
            return false;
        }
        i += 1;
    }
    assert(acv =~= bcv);
    true
}

} // verus!

verus! {

/// Names joined by `, `.
pub open spec fn join_names(ns: Seq<Seq<char>>) -> Seq<char>
    decreases ns.len(),
{
    if ns.len() == 0 {
        Seq::empty()
    } else if ns.len() == 1 {
        ns[0]
    } else {
        join_names(ns.drop_last()) + ", "@ + ns.last()
    }
}

/// The "file not found" message: with the scan's hint when there is one, else with
/// the first ten names of the current folder as candidates, and the instruction to
/// ask the user where the file is rather than guess.
pub open spec fn not_found_text(requested: Seq<char>, hint: Seq<char>, names: Seq<Seq<char>>) -> Seq<char> {
    if hint.len() > 0 {
        "파일 없음: "@ + requested + "."@ + hint
    } else {
        let shown = if names.len() > 10 {
            names.take(10)
        } else {
            names
        };
        if shown.len() == 0 {
            "파일 없음: "@ + requested
                + ". 주변 폴더에서도 같은 이름을 찾지 못했고 현재 폴더는 비어 있습니다. 다른 경로를 추측해 재시도하지 말고, 사용자에게 파일의 정확한 위치(폴더)를 물어보세요."@
        } else {
            "파일 없음: "@ + requested + ". 현재 폴더에는 다음이 있습니다: "@ + join_names(shown)
                + ". 요청한 파일이 이 중에 보이면 그 이름으로 다시 시도하고, 없으면 다른 경로를 추측하지 말고 사용자에게 파일의 정확한 위치(폴더)를 물어보세요."@
        }
    }
}

/// The "file not found" message (see [`not_found_text`]); `names` are the entries of
/// the current folder.
pub fn not_found_msg(requested: &str, hint: &str, names: &Vec<String>) -> (r: String)
    ensures
        r@ == not_found_text(requested@, hint@, names@.map_values(|s: String| s@)),
{
    let mut m = to_string("파일 없음: ");
    push_str(&mut m, requested);
    if chars_of(hint).len() > 0 {
        push_str(&mut m, ".");
        push_str(&mut m, hint);
        return m;
    }
    let ghost nv = names@.map_values(|s: String| s@);
    let n = if names.len() > 10 {
        10
    } else {
        names.len()
    };
    let ghost shown = if nv.len() > 10 {
        nv.take(10)
    } else {
        nv
    };
    assert(shown =~= nv.take(n as int));
    if n == 0 {
        push_str(
            &mut m,
            ". 주변 폴더에서도 같은 이름을 찾지 못했고 현재 폴더는 비어 있습니다. 다른 경로를 추측해 재시도하지 말고, 사용자에게 파일의 정확한 위치(폴더)를 물어보세요.",
        );
        return m;
    }
    push_str(&mut m, ". 현재 폴더에는 다음이 있습니다: ");
    let ghost m0 = m@;
    let mut i: usize = 0;
    while i < n
        invariant
            i <= n <= names@.len(),
            nv == names@.map_values(|s: String| s@),
            m@ == m0 + join_names(nv.take(i as int)),
        decreases n - i,
    {
        if i > 0 {
            push_str(&mut m, ", ");
        }
        push_str(&mut m, names[i].as_str());
        proof {
            let t = nv.take(i + 1);
            assert(t.drop_last() =~= nv.take(i as int));
            assert(m@ =~= m0 + join_names(t));
        }
        i += 1;
    }
    push_str(
        &mut m,
        ". 요청한 파일이 이 중에 보이면 그 이름으로 다시 시도하고, 없으면 다른 경로를 추측하지 말고 사용자에게 파일의 정확한 위치(폴더)를 물어보세요.",
    );
    m
}

} // verus!

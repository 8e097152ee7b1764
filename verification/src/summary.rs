//! The workspace overview shown when a session opens: how many files of each kind
//! the folder holds (one level, files only) and the suggestions made from them.
//! Listing the folder and looking for the background model is the caller's.
use vstd::prelude::*;

use crate::paths::{components, file_name_spec, is_abs};
use crate::text::{decimal, lower_text, push_str, to_string, u64_to_string};

verus! {

/// The overview of a workspace folder.
pub struct WorkspaceSummary {
    pub workspace_dir: String,
    pub folder_name: String,
    pub is_default_home: bool,
    /// No file the agent can work on (images, PDFs, ZIPs); a folder of other files
    /// counts as empty on purpose, so the user is led to pick another folder.
    pub is_empty: bool,
    pub images: u32,
    pub pdfs: u32,
    pub zips: u32,
    pub others: u32,
    pub removebg_available: bool,
    /// Filled only for a chosen folder with files to work on.
    pub suggestions: Vec<String>,
}

/// What kind of file an extension names.
#[derive(Clone, Copy, Debug, PartialEq, Eq, Structural)]
pub enum FileKind {
    Image,
    Pdf,
    Zip,
    Other,
}

/// Files of each kind.
#[derive(Clone, Copy, Debug, PartialEq, Eq, Structural)]
pub struct Counts {
    pub images: u32,
    pub pdfs: u32,
    pub zips: u32,
    pub others: u32,
}

pub open spec fn image_ext_names() -> Seq<Seq<char>> {
    seq!["png"@, "jpg"@, "jpeg"@, "webp"@, "gif"@, "bmp"@, "tif"@, "tiff"@]
}

/// The kind of a file by its lower-cased extension (none counts as other).
pub open spec fn kind_spec(ext: Option<Seq<char>>) -> FileKind {
    match ext {
        None => FileKind::Other,
        Some(e) => {
            let l = lower_text(e);
            if image_ext_names().contains(l) {
                FileKind::Image
            } else if l == "pdf"@ {
                FileKind::Pdf
            } else if l == "zip"@ {
                FileKind::Zip
            } else {
                FileKind::Other
            }
        },
    }
}

pub fn classify_ext(ext: &Option<String>) -> (r: FileKind)
    ensures
        r == kind_spec(crate::models::opt_view(*ext)),
{
    let x = match ext {
        Some(x) => x,
        None => return FileKind::Other,
    };
    let l = crate::text::to_lowercase(x.as_str());
    assert(crate::models::opt_view(*ext) == Some(x@));
    let names: [&str; 8] = ["png", "jpg", "jpeg", "webp", "gif", "bmp", "tif", "tiff"];
    let ghost nv = image_ext_names();
    assert(crate::text::strs_view(names@) =~= nv);
    let mut i: usize = 0;
    while i < 8
        invariant
            i <= 8,
            nv == image_ext_names(),
            nv == crate::text::strs_view(names@),
            l@ == lower_text(x@),
            crate::models::opt_view(*ext) == Some(x@),
            forall|j: int| 0 <= j < i ==> nv[j] != l@,
        decreases 8 - i,
    {
        if crate::text::text_eq(l.as_str(), names[i]) {
            assert(nv[i as int] == l@);
            return FileKind::Image;
        }
        i += 1;
    }
    assert(!nv.contains(l@));
    if crate::text::text_eq(l.as_str(), "pdf") {
        FileKind::Pdf
    } else if crate::text::text_eq(l.as_str(), "zip") {
        FileKind::Zip
    } else {
        FileKind::Other
    }
}

pub open spec fn count_kind(exts: Seq<Option<Seq<char>>>, k: FileKind) -> nat
    decreases exts.len(),
{
    if exts.len() == 0 {
        0
    } else {
        count_kind(exts.drop_last(), k) + if kind_spec(exts.last()) == k {
            1nat
        } else {
            0nat
        }
    }
}

pub open spec fn exts_view(v: Seq<Option<String>>) -> Seq<Option<Seq<char>>> {
    v.map_values(|o: Option<String>| crate::models::opt_view(o))
}

proof fn lemma_count_le(exts: Seq<Option<Seq<char>>>, k: FileKind)
    ensures
        count_kind(exts, k) <= exts.len(),
    decreases exts.len(),
{
    if exts.len() > 0 {
        lemma_count_le(exts.drop_last(), k);
    }
}

/// Counts the files of each kind, given each file's extension.
pub fn classify(exts: &Vec<Option<String>>) -> (c: Counts)
    requires
        exts@.len() <= u32::MAX,
    ensures
        c.images == count_kind(exts_view(exts@), FileKind::Image),
        c.pdfs == count_kind(exts_view(exts@), FileKind::Pdf),
        c.zips == count_kind(exts_view(exts@), FileKind::Zip),
        c.others == count_kind(exts_view(exts@), FileKind::Other),
{
    let ghost ev = exts_view(exts@);
    let mut c = Counts { images: 0, pdfs: 0, zips: 0, others: 0 };
    let mut i: usize = 0;
    while i < exts.len()
        invariant
            i <= exts@.len() <= u32::MAX,
            ev == exts_view(exts@),
            c.images == count_kind(ev.take(i as int), FileKind::Image),
            c.pdfs == count_kind(ev.take(i as int), FileKind::Pdf),
            c.zips == count_kind(ev.take(i as int), FileKind::Zip),
            c.others == count_kind(ev.take(i as int), FileKind::Other),
        decreases exts.len() - i,
    {
        let k = classify_ext(&exts[i]);
        proof {
            let t = ev.take(i + 1);
            assert(t.drop_last() =~= ev.take(i as int));
            assert(t.last() == crate::models::opt_view(exts@[i as int]));
            lemma_count_le(ev.take(i as int), FileKind::Image);
            lemma_count_le(ev.take(i as int), FileKind::Pdf);
            lemma_count_le(ev.take(i as int), FileKind::Zip);
            lemma_count_le(ev.take(i as int), FileKind::Other);
        }
        match k {
            FileKind::Image => c.images = c.images + 1,
            FileKind::Pdf => c.pdfs = c.pdfs + 1,
            FileKind::Zip => c.zips = c.zips + 1,
            FileKind::Other => c.others = c.others + 1,
        }
        i += 1;
    }
    assert(ev.take(ev.len() as int) =~= ev);
    c
}

/// The suggestions for the files held: text extraction for PDFs, a PDF of the
/// images and, with the background model present, background removal; unpacking
/// for ZIPs; and always a screen capture.
pub open spec fn suggestions_spec(c: Counts, removebg: bool) -> Seq<Seq<char>> {
    let a: Seq<Seq<char>> = if c.pdfs >= 1 {
        seq!["PDF "@ + decimal(c.pdfs as nat) + "개에서 텍스트 추출"@]
    } else {
        Seq::empty()
    };
    let b = if c.images >= 1 {
        let b1 = a.push("이미지 "@ + decimal(c.images as nat) + "장을 PDF 한 권으로 묶기"@);
        if removebg {
            b1.push("사진 "@ + decimal(c.images as nat) + "장 배경 제거하기"@)
        } else {
            b1
        }
    } else {
        a
    };
    let d = if c.zips >= 1 {
        b.push("압축 파일 풀기"@)
    } else {
        b
    };
    d.push("화면 캡처해줘"@)
}

pub fn build_suggestions(c: &Counts, removebg_available: bool) -> (r: Vec<String>)
    ensures
        r@.map_values(|s: String| s@) == suggestions_spec(*c, removebg_available),
{
    let mut s: Vec<String> = Vec::new();
    if c.pdfs >= 1 {
        let mut t = to_string("PDF ");
        let n = u64_to_string(c.pdfs as u64);
        push_str(&mut t, n.as_str());
        push_str(&mut t, "개에서 텍스트 추출");
        s.push(t);
    }
    if c.images >= 1 {
        let n = u64_to_string(c.images as u64);
        let mut t = to_string("이미지 ");
        push_str(&mut t, n.as_str());
        push_str(&mut t, "장을 PDF 한 권으로 묶기");
        s.push(t);
        if removebg_available {
            let mut t2 = to_string("사진 ");
            push_str(&mut t2, n.as_str());
            push_str(&mut t2, "장 배경 제거하기");
            s.push(t2);
        }
    }
    if c.zips >= 1 {
        s.push(to_string("압축 파일 풀기"));
    }
    s.push(to_string("화면 캡처해줘"));
    assert(s@.map_values(|x: String| x@) =~= suggestions_spec(*c, removebg_available));
    s
}

/// Two paths name the same folder when both or neither are absolute and their
/// components agree.
pub open spec fn same_path(a: Seq<char>, b: Seq<char>) -> bool {
    is_abs(a) == is_abs(b) && components(a) == components(b)
}

fn same_components(a: &Vec<Vec<char>>, b: &Vec<Vec<char>>) -> (r: bool)
    ensures
        r == (a@.map_values(|c: Vec<char>| c@) == b@.map_values(|c: Vec<char>| c@)),
{
    let ghost av = a@.map_values(|c: Vec<char>| c@);
    let ghost bv = b@.map_values(|c: Vec<char>| c@);
    if a.len() != b.len() {
        assert(av.len() != bv.len());
        return false;
    }
    let mut i: usize = 0;
    while i < a.len()
        invariant
            i <= a@.len() == b@.len(),
            av == a@.map_values(|c: Vec<char>| c@),
            bv == b@.map_values(|c: Vec<char>| c@),
            forall|j: int| 0 <= j < i ==> av[j] == bv[j],
        decreases a.len() - i,
    {
        let x = crate::text::string_of(a[i].as_slice());
        let y = crate::text::string_of(b[i].as_slice());
        if !crate::text::text_eq(x.as_str(), y.as_str()) {
            assert(av[i as int] != bv[i as int]);
            return false;
        }
        i += 1;
    }
    assert(av =~= bv);
    true
}

pub fn is_same_path(a: &str, b: &str) -> (r: bool)
    ensures
        r == same_path(a@, b@),
{
    let av = crate::text::chars_of(a);
    let bv = crate::text::chars_of(b);
    if crate::paths::is_absolute(av.as_slice()) != crate::paths::is_absolute(bv.as_slice()) {
        return false;
    }
    let ca = crate::paths::split_components(av.as_slice());
    let cb = crate::paths::split_components(bv.as_slice());
    same_components(&ca, &cb)
}

/// The name shown for the folder: its last name, or the whole path when it has
/// none.
pub open spec fn folder_name_spec(dir: Seq<char>) -> Seq<char> {
    if file_name_spec(dir).len() == 0 {
        dir
    } else {
        file_name_spec(dir)
    }
}

/// The overview of `workspace_dir`, given the extension of each file directly in
/// it (sub-folders not counted) and whether the background model is present.
/// Suggestions are made only for a folder other than the home folder that holds
/// files to work on.
pub fn summarize(
    workspace_dir: &str,
    home_dir: &str,
    removebg_available: bool,
    file_exts: &Vec<Option<String>>,
) -> (s: WorkspaceSummary)
    requires
        file_exts@.len() <= u32::MAX,
    ensures
        ({
            let ev = exts_view(file_exts@);
            let c = Counts {
                images: count_kind(ev, FileKind::Image) as u32,
                pdfs: count_kind(ev, FileKind::Pdf) as u32,
                zips: count_kind(ev, FileKind::Zip) as u32,
                others: count_kind(ev, FileKind::Other) as u32,
            };
            &&& s.workspace_dir@ == workspace_dir@
            &&& s.folder_name@ == folder_name_spec(workspace_dir@)
            &&& s.is_default_home == same_path(workspace_dir@, home_dir@)
            &&& s.images == c.images && s.pdfs == c.pdfs && s.zips == c.zips && s.others == c.others
            &&& s.is_empty == (c.images + c.pdfs + c.zips == 0)
            &&& s.removebg_available == removebg_available
            &&& s.suggestions@.map_values(|x: String| x@) == if s.is_default_home || s.is_empty {
                Seq::<Seq<char>>::empty()
            } else {
                suggestions_spec(c, removebg_available)
            }
        }),
{
    let c = classify(file_exts);
    let is_default_home = is_same_path(workspace_dir, home_dir);
    let is_empty = c.images as u64 + c.pdfs as u64 + c.zips as u64 == 0;
    let name = crate::paths::file_name_of(workspace_dir);
    let folder_name = if crate::history::char_count(name.as_str()) == 0 {
        to_string(workspace_dir)
    } else {
        name
    };
    let suggestions = if is_default_home || is_empty {
        let v: Vec<String> = Vec::new();
        assert(v@.map_values(|x: String| x@) =~= Seq::<Seq<char>>::empty());
        v
    } else {
        build_suggestions(&c, removebg_available)
    };
    WorkspaceSummary {
        workspace_dir: to_string(workspace_dir),
        folder_name,
        is_default_home,
        is_empty,
        images: c.images,
        pdfs: c.pdfs,
        zips: c.zips,
        others: c.others,
        removebg_available,
        suggestions,
    }
}

} // verus!

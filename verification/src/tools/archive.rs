//! ZIP archives: which targets a `paths` argument names, where the archive or the
//! extracted folder goes, the names entries get, which entries extraction refuses
//! (Zip Slip), how legacy Korean entry names are decoded, and the reports.
//! Reading, writing and walking the files is the caller's.
use vstd::prelude::*;

use crate::paths::{
    components, dir_part, file_name_spec, has_parent_dir, is_abs, is_sep, join_spec, join_with,
    split_state, stem_spec,
};
use crate::text::{chars_of, decimal, push_char, push_str, to_string, trim, u64_to_string};

verus! {

/// Entries that a listing shows.
pub const MAX_LISTED: usize = 200;

/// Packs files and folders into a ZIP.
pub struct ZipCreate;

impl ZipCreate {
    pub fn name(&self) -> (r: &'static str)
        ensures
            r@ == "zip_create"@,
    {
        "zip_create"
    }

    pub fn description(&self) -> (r: &'static str)
        ensures
            r@ == crate::tools::tool_description(crate::tools::ToolKind::ZipCreate),
    {
        "파일 또는 폴더(하위 포함)를 ZIP으로 압축한다. paths 는 쉼표로 여러 개 지정 가능."
    }
}

/// Unpacks or lists a ZIP.
pub struct ZipExtract;

impl ZipExtract {
    pub fn name(&self) -> (r: &'static str)
        ensures
            r@ == "zip_extract"@,
    {
        "zip_extract"
    }

    pub fn description(&self) -> (r: &'static str)
        ensures
            r@ == crate::tools::tool_description(crate::tools::ToolKind::ZipExtract),
    {
        "ZIP 파일의 압축을 푼다. 내용 확인만 하려면 list_only=true."
    }
}

// ---------------------------------------------------------------------------
// Targets
// ---------------------------------------------------------------------------

/// The pieces of `s` between the separators `sep` (`str::split`).
pub open spec fn pieces(s: Seq<char>, sep: char) -> Seq<Seq<char>>
    decreases s.len(),
{
    if s.len() == 0 {
        seq![Seq::<char>::empty()]
    } else {
        let p = pieces(s.drop_last(), sep);
        if s.last() == sep {
            p.push(Seq::<char>::empty())
        } else {
            p.update(p.len() - 1, p.last().push(s.last()))
        }
    }
}

/// The trimmed pieces that are not empty, in order.
pub open spec fn nonempty_trimmed(ps: Seq<Seq<char>>) -> Seq<Seq<char>>
    decreases ps.len(),
{
    if ps.len() == 0 {
        Seq::empty()
    } else {
        let r = nonempty_trimmed(ps.drop_last());
        let t = trim(ps.last());
        if t.len() == 0 {
            r
        } else {
            r.push(t)
        }
    }
}

/// The paths that a comma-separated `paths` argument names.
pub open spec fn targets_spec(paths: Seq<char>) -> Seq<Seq<char>> {
    nonempty_trimmed(pieces(paths, ','))
}

pub open spec fn strings_view(v: Seq<String>) -> Seq<Seq<char>> {
    v.map_values(|s: String| s@)
}

proof fn lemma_pieces_len(s: Seq<char>, sep: char)
    ensures
        pieces(s, sep).len() >= 1,
    decreases s.len(),
{
    if s.len() > 0 {
        lemma_pieces_len(s.drop_last(), sep);
    }
}

/// The targets of `zip_create`: the comma-separated paths, trimmed, empty ones
/// left out; an error when none is left.
pub fn parse_zip_targets(paths: &str) -> (r: Result<Vec<String>, String>)
    ensures
        match r {
            Ok(v) => strings_view(v@) == targets_spec(paths@) && v@.len() > 0,
            Err(e) => targets_spec(paths@).len() == 0 && e@ == "압축할 대상이 없음"@,
        },
{
    let v = chars_of(paths);
    let mut out: Vec<String> = Vec::new();
    let mut cur = String::new();
    let ghost mut all: Seq<Seq<char>> = Seq::empty();
    let mut i: usize = 0;
    assert(v@.take(0) =~= Seq::<char>::empty());
    assert(pieces(Seq::<char>::empty(), ',') =~= all.push(cur@));
    while i < v.len()
        invariant
            i <= v@.len(),
            v@ == paths@,
            pieces(v@.take(i as int), ',') == all.push(cur@),
            strings_view(out@) == nonempty_trimmed(all),
        decreases v.len() - i,
    {
        let c = v[i];
        let ghost before = v@.take(i as int);
        assert(v@.take(i + 1).drop_last() =~= before);
        assert(v@.take(i + 1).last() == c);
        if c == ',' {
            let t = crate::text::trim_str(cur.as_str());
            let ghost done = all.push(cur@);
            assert(nonempty_trimmed(done).len() >= 0);
            assert(done.drop_last() =~= all);
            if crate::history::char_count(t.as_str()) > 0 {
                let ghost o0 = strings_view(out@);
                out.push(t);
                assert(strings_view(out@) =~= o0.push(trim(cur@)));
            }
            proof {
                all = done;
            }
            cur = String::new();
            assert(pieces(v@.take(i + 1), ',') =~= all.push(cur@));
        } else {
            let ghost c0 = cur@;
            push_char(&mut cur, c);
            assert(all.push(c0).update(all.len() as int, c0.push(c)) =~= all.push(cur@));
        }
        i += 1;
    }
    assert(v@.take(v@.len() as int) =~= v@);
    let t = crate::text::trim_str(cur.as_str());
    let ghost done = all.push(cur@);
    assert(done.drop_last() =~= all);
    if crate::history::char_count(t.as_str()) > 0 {
        let ghost o0 = strings_view(out@);
        out.push(t);
        assert(strings_view(out@) =~= o0.push(trim(cur@)));
    }
    if out.len() == 0 {
        return Err(to_string("압축할 대상이 없음"));
    }
    Ok(out)
}

/// The refusal of a target that does not exist.
pub fn missing_target_error(path: &str) -> (r: String)
    ensures
        r@ == "경로 없음: "@ + path@,
{
    let mut r = to_string("경로 없음: ");
    push_str(&mut r, path);
    r
}

/// The stem of a path's last name, or `fallback` when it has none.
pub open spec fn stem_or(p: Seq<char>, fallback: Seq<char>) -> Seq<char> {
    if stem_spec(file_name_spec(p)).len() == 0 {
        fallback
    } else {
        stem_spec(file_name_spec(p))
    }
}

fn stem_or_default(p: &str, fallback: &str) -> (r: String)
    ensures
        r@ == stem_or(p@, fallback@),
{
    let s = crate::paths::file_stem_of(p);
    if crate::history::char_count(s.as_str()) == 0 {
        to_string(fallback)
    } else {
        s
    }
}

/// Where the archive goes: `output_path` when given, else `<stem>.zip` beside the
/// first target (`archive.zip` when it has no stem).
pub open spec fn zip_output_spec(first: Seq<char>, output_path: Option<Seq<char>>) -> Seq<char> {
    match output_path {
        Some(o) => o,
        None => dir_part(first) + stem_or(first, "archive"@) + ".zip"@,
    }
}

pub fn zip_output_path(first: &str, output_path: Option<&str>) -> (r: String)
    ensures
        r@ == zip_output_spec(
            first@,
            match output_path {
                Some(o) => Some(o@),
                None => None,
            },
        ),
{
    match output_path {
        Some(o) => to_string(o),
        None => {
            let mut name = stem_or_default(first, "archive");
            push_str(&mut name, ".zip");
            crate::paths::with_file_name(first, name.as_str())
        },
    }
}

/// The refusal to overwrite an existing output (an archive or a document).
pub fn output_exists_refusal(out: &str) -> (r: String)
    ensures
        r@ == "대상이 이미 존재함: "@ + out@ + " (다른 output_path 지정)"@,
{
    let mut r = to_string("대상이 이미 존재함: ");
    push_str(&mut r, out);
    push_str(&mut r, " (다른 output_path 지정)");
    r
}

/// Replaces every `\` by `/`.
pub open spec fn slashes(s: Seq<char>) -> Seq<char> {
    s.map_values(|c: char| if c == '\\' { '/' } else { c })
}

/// The name in the archive of a file met while walking the folder target `folder`:
/// its path from the folder's parent on (the folder's name first), with `/`.
pub open spec fn folder_entry_spec(folder: Seq<char>, entry: Seq<char>) -> Seq<char> {
    let base = dir_part(folder);
    if base.len() <= entry.len() && entry.take(base.len() as int) == base {
        slashes(entry.skip(base.len() as int))
    } else {
        slashes(entry)
    }
}

pub fn folder_entry_name(folder: &str, entry: &str) -> (r: String)
    ensures
        r@ == folder_entry_spec(folder@, entry@),
{
    let fv = chars_of(folder);
    let k = crate::paths::name_start_index(fv.as_slice());
    let ev = chars_of(entry);
    assert(fv@.take(k as int) == dir_part(folder@));
    let mut same = k <= ev.len();
    let mut j: usize = 0;
    while same && j < k
        invariant
            k <= fv@.len(),
            same ==> j <= k <= ev@.len(),
            same ==> forall|t: int| 0 <= t < j ==> ev@[t] == fv@[t],
            !same ==> (k > ev@.len() || (j < k <= ev@.len() && ev@[j as int] != fv@[j as int])),
        decreases k - j + (if same { 1int } else { 0int }),
    {
        if ev[j] != fv[j] {
            same = false;
        } else {
            j += 1;
        }
    }
    proof {
        if same {
            assert(ev@.take(k as int) =~= fv@.take(k as int));
        } else if k <= ev@.len() {
            assert(ev@.take(k as int)[j as int] != fv@.take(k as int)[j as int]);
        }
    }
    let rest = if same {
        crate::text::string_of_range(ev.as_slice(), k, ev.len())
    } else {
        crate::text::string_of(ev.as_slice())
    };
    proof {
        if same {
            assert(ev@.subrange(k as int, ev@.len() as int) =~= ev@.skip(k as int));
        }
    }
    crate::paths::to_slashes(rest.as_str())
}

/// The report of a finished archive.
pub fn zip_create_report(out: &str, count: u64, size: u64) -> (r: String)
    ensures
        r@ == "압축 완료: "@ + out@ + " (파일 "@ + decimal(count as nat) + "개, "@ + decimal(
            size as nat,
        ) + " bytes)"@,
{
    let mut r = to_string("압축 완료: ");
    push_str(&mut r, out);
    push_str(&mut r, " (파일 ");
    let c = u64_to_string(count);
    push_str(&mut r, c.as_str());
    push_str(&mut r, "개, ");
    let s = u64_to_string(size);
    push_str(&mut r, s.as_str());
    push_str(&mut r, " bytes)");
    r
}

// ---------------------------------------------------------------------------
// Extraction
// ---------------------------------------------------------------------------

/// Where an archive is unpacked: `output_dir` when given, else a folder beside the
/// archive named after its stem (`extracted` when it has none).
pub open spec fn extract_dir_spec(path: Seq<char>, output_dir: Option<Seq<char>>) -> Seq<char> {
    match output_dir {
        Some(o) => o,
        None => dir_part(path) + stem_or(path, "extracted"@),
    }
}

pub fn extract_dir(path: &str, output_dir: Option<&str>) -> (r: String)
    ensures
        r@ == extract_dir_spec(
            path@,
            match output_dir {
                Some(o) => Some(o@),
                None => None,
            },
        ),
{
    match output_dir {
        Some(o) => to_string(o),
        None => {
            let name = stem_or_default(path, "extracted");
            crate::paths::with_file_name(path, name.as_str())
        },
    }
}

/// An entry is unpacked only when its name is relative and has no `..` component,
/// so nothing is written outside the target folder.
pub open spec fn safe_entry(name: Seq<char>) -> bool {
    !is_abs(name) && !has_parent_dir(name)
}

pub fn is_safe_entry(name: &str) -> (r: bool)
    ensures
        r == safe_entry(name@),
{
    let v = chars_of(name);
    !crate::paths::is_absolute(v.as_slice()) && !crate::paths::contains_parent_dir(name)
}

/// Where a safe entry lands.
pub fn entry_target(out_dir: &str, name: &str) -> (r: String)
    requires
        safe_entry(name@),
    ensures
        r@ == join_spec(out_dir@, name@),
        is_sep(crate::paths::join_separator(out_dir@, name@)),
        !is_abs(name@),
{
    crate::paths::join(out_dir, name)
}

/// No entry escapes the folder it is unpacked into: the components of an
/// unpacked entry's target (the folder and the name joined with either separator)
/// are those of the folder followed by those of the entry's name, none of which is
/// `..`.
pub proof fn law_unpacked_entries_stay_inside(out_dir: Seq<char>, name: Seq<char>, sep: char)
    requires
        safe_entry(name),
        is_sep(sep),
    ensures
        components(join_with(out_dir, name, sep)) == components(out_dir) + components(name),
        !components(name).contains(seq!['.', '.']),
{
    if out_dir.len() == 0 {
        assert(Seq::<Seq<char>>::empty() + components(name) =~= components(name));
        assert(components(out_dir) =~= Seq::<Seq<char>>::empty()) by {
            assert(split_state(out_dir) == (Seq::<Seq<char>>::empty(), Seq::<char>::empty()));
        }
    } else if is_sep(out_dir.last()) {
        crate::paths::lemma_split_state_sep(out_dir.drop_last(), out_dir.last());
        assert(out_dir.drop_last().push(out_dir.last()) =~= out_dir);
        crate::paths::lemma_components_concat(out_dir, name);
        assert(components(out_dir) == split_state(out_dir).0) by {
            assert(split_state(out_dir).1.len() == 0);
        }
    } else {
        let d = out_dir.push(sep);
        crate::paths::lemma_split_state_sep(out_dir, sep);
        crate::paths::lemma_components_concat(d, name);
    }
}

/// One entry of a listing: its name and size.
pub struct ListedEntry {
    pub name: String,
    pub size: u64,
}

pub open spec fn listed_line(e: ListedEntry) -> Seq<char> {
    e.name@ + "\t"@ + decimal(e.size as nat)
}

pub open spec fn listed_lines(es: Seq<ListedEntry>) -> Seq<Seq<char>> {
    es.map_values(|e: ListedEntry| listed_line(e))
}

/// How many entries of an archive with `total` entries a listing shows.
pub fn listed_count(total: usize) -> (r: usize)
    ensures
        r == if total < MAX_LISTED {
            total
        } else {
            MAX_LISTED
        },
{
    if total < MAX_LISTED {
        total
    } else {
        MAX_LISTED
    }
}

/// The listing of an archive of `total` entries; of `entries` the first
/// [`MAX_LISTED`] are shown.
pub fn zip_list_report(total: u64, entries: &Vec<ListedEntry>) -> (r: String)
    ensures
        ({
            let shown = if entries@.len() < MAX_LISTED {
                entries@.len() as int
            } else {
                MAX_LISTED as int
            };
            r@ == decimal(total as nat) + "개 항목:\nname\tsize\n"@ + crate::tools::fs::join_lines_nl(
                listed_lines(entries@.take(shown)),
            )
        }),
{
    let n = listed_count(entries.len());
    let mut r = u64_to_string(total);
    push_str(&mut r, "개 항목:\nname\tsize\n");
    let ghost r0 = r@;
    let ghost lv = listed_lines(entries@.take(n as int));
    let mut i: usize = 0;
    while i < n
        invariant
            i <= n <= entries@.len(),
            lv == listed_lines(entries@.take(n as int)),
            r@ == r0 + crate::tools::fs::join_lines_nl(lv.take(i as int)),
        decreases n - i,
    {
        if i > 0 {
            push_str(&mut r, "\n");
        }
        push_str(&mut r, entries[i].name.as_str());
        push_str(&mut r, "\t");
        let s = u64_to_string(entries[i].size);
        push_str(&mut r, s.as_str());
        proof {
            let t = lv.take(i + 1);
            assert(t.drop_last() =~= lv.take(i as int));
            assert(lv[i as int] == listed_line(entries@[i as int]));
            assert(r@ =~= r0 + crate::tools::fs::join_lines_nl(t));
        }
        i += 1;
    }
    assert(lv.take(n as int) =~= lv);
    r
}

/// The report of a finished extraction.
pub fn extract_report(out_dir: &str, count: u64) -> (r: String)
    ensures
        r@ == "압축 해제 완료: "@ + out_dir@ + " (파일 "@ + decimal(count as nat) + "개)"@,
{
    let mut r = to_string("압축 해제 완료: ");
    push_str(&mut r, out_dir);
    push_str(&mut r, " (파일 ");
    let c = u64_to_string(count);
    push_str(&mut r, c.as_str());
    push_str(&mut r, "개)");
    r
}

// ---------------------------------------------------------------------------
// Entry names
// ---------------------------------------------------------------------------

/// The text of bytes that are valid UTF-8 (`None` when they are not), as
/// `std::str::from_utf8` decodes them.
pub uninterp spec fn utf8_text(b: Seq<u8>) -> Option<Seq<char>>;

/// What `encoding_rs::EUC_KR.decode` makes of bytes: the text, and whether a
/// malformed sequence was met.
pub uninterp spec fn euc_kr_decoded(b: Seq<u8>) -> (Seq<char>, bool);

/// Calls `std::str::from_utf8`; the result is named [`utf8_text`] of the bytes.
#[verifier::external_body]
fn decode_utf8(raw: &[u8]) -> (r: Option<String>)
    ensures
        match r {
            Some(s) => utf8_text(raw@) == Some(s@),
            None => utf8_text(raw@) is None,
        },
{
    match std::str::from_utf8(raw) {
        Ok(s) => Some(s.to_string()),
        Err(_) => None,
    }
}

/// Calls `encoding_rs::EUC_KR.decode` (which handles the CP949 extension too); the
/// text and the error flag are named [`euc_kr_decoded`] of the bytes.
#[verifier::external_body]
fn decode_euc_kr(raw: &[u8]) -> (r: (String, bool))
    ensures
        (r.0@, r.1) == euc_kr_decoded(raw@),
{
    let (decoded, _, had_errors) = encoding_rs::EUC_KR.decode(raw);
    (decoded.into_owned(), had_errors)
}

/// The name of an entry: its UTF-8 text when it is valid UTF-8, else its EUC-KR
/// text when that decodes cleanly, else the lossy UTF-8 text.
pub open spec fn entry_name_spec(
    utf8: Option<Seq<char>>,
    legacy: (Seq<char>, bool),
    lossy: Seq<char>,
) -> Seq<char> {
    match utf8 {
        Some(s) => s,
        None => if legacy.1 {
            lossy
        } else {
            legacy.0
        },
    }
}

/// Picks an entry's name from its three decodings.
pub fn choose_entry_name(utf8: Option<String>, legacy: (String, bool), lossy: String) -> (r: String)
    ensures
        r@ == entry_name_spec(
            match utf8 {
                Some(s) => Some(s@),
                None => None,
            },
            (legacy.0@, legacy.1),
            lossy@,
        ),
{
    match utf8 {
        Some(s) => s,
        None => if legacy.1 {
            lossy
        } else {
            legacy.0
        },
    }
}

/// Decodes a raw entry name: UTF-8, else Korean legacy (CP949/EUC-KR), else lossy.
pub fn decode_name(raw: &[u8]) -> (r: String)
    ensures
        r@ == entry_name_spec(
            utf8_text(raw@),
            euc_kr_decoded(raw@),
            crate::tools::fs::utf8_lossy(raw@),
        ),
{
    let utf8 = decode_utf8(raw);
    let legacy = decode_euc_kr(raw);
    let lossy = crate::tools::fs::decode_lossy(raw);
    choose_entry_name(utf8, legacy, lossy)
}

} // verus!

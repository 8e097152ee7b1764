//! The file tools: listing, reading, writing, moving, renaming, copying and
//! deleting. The caller touches the file system; this module decides paths,
//! refusals and the reports given back to the model.
use vstd::prelude::*;

use crate::fallback::path_file_name;
use crate::paths::{dir_part, extension_spec, file_name_spec, join_spec, is_abs};
use crate::text::{
    chars_of, decimal, lower_text, push_str, string_of, to_lowercase, to_string, trim,
    u64_to_string, utf8_len,
};

verus! {

/// Largest part of a file that is read.
pub const MAX_READ_BYTES: u64 = 65536;

/// Entries listed at most (the others are counted).
pub const MAX_LIST_ENTRIES: usize = 100;

/// Lists a directory.
pub struct ListDir;

/// Reads a text file.
pub struct ReadFile;

/// Writes a text file.
pub struct WriteFile;

/// Moves a file or folder to another folder.
pub struct MovePath;

/// Renames a file or folder in its folder.
pub struct RenameFile;

/// Copies a file.
pub struct CopyPath;

/// Sends a file or folder to the trash.
pub struct DeletePath;

impl ListDir {
    pub fn name(&self) -> (r: &'static str)
        ensures
            r@ == "list_dir"@,
    {
        "list_dir"
    }

    pub fn description(&self) -> (r: &'static str)
        ensures
            r@ == crate::tools::tool_description(crate::tools::ToolKind::ListDir),
    {
        "디렉토리의 파일/폴더 목록을 조회한다. 이름, 종류, 크기, 수정시각 포함."
    }
}

impl ReadFile {
    pub fn name(&self) -> (r: &'static str)
        ensures
            r@ == "read_file"@,
    {
        "read_file"
    }

    pub fn description(&self) -> (r: &'static str)
        ensures
            r@ == crate::tools::tool_description(crate::tools::ToolKind::ReadFile),
    {
        "텍스트 파일 내용을 읽는다 (최대 64KB)."
    }
}

impl WriteFile {
    pub fn name(&self) -> (r: &'static str)
        ensures
            r@ == "write_file"@,
    {
        "write_file"
    }

    pub fn description(&self) -> (r: &'static str)
        ensures
            r@ == crate::tools::tool_description(crate::tools::ToolKind::WriteFile),
    {
        "파일에 텍스트를 적어 저장한다 (적어줘/저장해줘/기록해줘/작성해줘/메모해줘). 사용자가 불러준 내용을 파일로 만들 때 사용. 기존 파일은 overwrite=true 일 때만 덮어쓴다."
    }
}

impl MovePath {
    pub fn name(&self) -> (r: &'static str)
        ensures
            r@ == "move_path"@,
    {
        "move_path"
    }

    pub fn description(&self) -> (r: &'static str)
        ensures
            r@ == crate::tools::tool_description(crate::tools::ToolKind::MovePath),
    {
        "파일/폴더를 다른 폴더로 이동한다. 같은 폴더 안에서 이름만 바꾸려면 rename_file을 쓴다."
    }
}

impl RenameFile {
    pub fn name(&self) -> (r: &'static str)
        ensures
            r@ == "rename_file"@,
    {
        "rename_file"
    }

    pub fn description(&self) -> (r: &'static str)
        ensures
            r@ == crate::tools::tool_description(crate::tools::ToolKind::RenameFile),
    {
        "파일/폴더의 이름을 바꾼다 (같은 폴더 안에서). 새 이름에 확장자를 생략하면 원본 확장자가 유지된다. 다른 폴더로 옮기려면 move_path를 쓴다."
    }
}

impl CopyPath {
    pub fn name(&self) -> (r: &'static str)
        ensures
            r@ == "copy_path"@,
    {
        "copy_path"
    }

    pub fn description(&self) -> (r: &'static str)
        ensures
            r@ == crate::tools::tool_description(crate::tools::ToolKind::CopyPath),
    {
        "파일을 복사한다."
    }
}

impl DeletePath {
    pub fn name(&self) -> (r: &'static str)
        ensures
            r@ == "delete_path"@,
    {
        "delete_path"
    }

    pub fn description(&self) -> (r: &'static str)
        ensures
            r@ == crate::tools::tool_description(crate::tools::ToolKind::DeletePath),
    {
        "파일/폴더를 휴지통으로 보낸다 (영구 삭제 아님)."
    }
}

// ---------------------------------------------------------------------------
// Listing
// ---------------------------------------------------------------------------

/// One entry of a directory, as the caller read it.
pub struct DirEntryInfo {
    pub is_dir: bool,
    pub size: u64,
    /// Modification time, formatted.
    pub modified: String,
    pub name: String,
}

pub open spec fn entry_line(e: DirEntryInfo) -> Seq<char> {
    (if e.is_dir {
        "dir"@
    } else {
        "file"@
    }) + "\t"@ + decimal(e.size as nat) + "\t"@ + e.modified@ + "\t"@ + e.name@
}

/// Lines joined by line breaks.
pub open spec fn join_lines_nl(ls: Seq<Seq<char>>) -> Seq<char>
    decreases ls.len(),
{
    if ls.len() == 0 {
        Seq::empty()
    } else if ls.len() == 1 {
        ls[0]
    } else {
        join_lines_nl(ls.drop_last()) + "\n"@ + ls.last()
    }
}

/// The listing of a directory: a header and one line per entry (the first 100),
/// with a count of what was left out; "(빈 디렉토리)" for an empty one.
pub open spec fn list_text(es: Seq<DirEntryInfo>) -> Seq<char> {
    let shown = if es.len() > 100 {
        es.take(100)
    } else {
        es
    };
    if es.len() == 0 {
        "(빈 디렉토리)"@
    } else {
        let body = "type\tsize\tmodified\tname\n"@ + join_lines_nl(
            shown.map_values(|e: DirEntryInfo| entry_line(e)),
        );
        if es.len() > shown.len() {
            body + "\n...(총 "@ + decimal(es.len() as nat) + "개 중 "@ + decimal(shown.len() as nat)
                + "개만 표시)"@
        } else {
            body
        }
    }
}

fn entry_line_of(e: &DirEntryInfo) -> (r: String)
    ensures
        r@ == entry_line(*e),
{
    let mut r = if e.is_dir {
        to_string("dir")
    } else {
        to_string("file")
    };
    push_str(&mut r, "\t");
    let size = u64_to_string(e.size);
    push_str(&mut r, size.as_str());
    push_str(&mut r, "\t");
    push_str(&mut r, e.modified.as_str());
    push_str(&mut r, "\t");
    push_str(&mut r, e.name.as_str());
    r
}

/// The listing of the entries of a directory (see [`list_text`]).
pub fn list_report(entries: &Vec<DirEntryInfo>) -> (r: String)
    ensures
        r@ == list_text(entries@),
{
    if entries.len() == 0 {
        return to_string("(빈 디렉토리)");
    }
    let n = if entries.len() > MAX_LIST_ENTRIES {
        MAX_LIST_ENTRIES
    } else {
        entries.len()
    };
    let ghost shown = if entries@.len() > 100 {
        entries@.take(100)
    } else {
        entries@
    };
    assert(shown =~= entries@.take(n as int));
    let ghost lines = shown.map_values(|e: DirEntryInfo| entry_line(e));
    let mut r = to_string("type\tsize\tmodified\tname\n");
    let ghost r0 = r@;
    let mut i: usize = 0;
    while i < n
        invariant
            i <= n <= entries@.len(),
            n == shown.len(),
            shown == entries@.take(n as int),
            lines == shown.map_values(|e: DirEntryInfo| entry_line(e)),
            r@ == r0 + join_lines_nl(lines.take(i as int)),
        decreases n - i,
    {
        if i > 0 {
            push_str(&mut r, "\n");
        }
        let l = entry_line_of(&entries[i]);
        push_str(&mut r, l.as_str());
        proof {
            let t = lines.take(i + 1);
            assert(t.drop_last() =~= lines.take(i as int));
            assert(lines[i as int] == entry_line(entries@[i as int]));
            assert(r@ =~= r0 + join_lines_nl(t));
        }
        i += 1;
    }
    assert(lines.take(n as int) =~= lines);
    if entries.len() > n {
        push_str(&mut r, "\n...(총 ");
        let total = u64_to_string(entries.len() as u64);
        push_str(&mut r, total.as_str());
        push_str(&mut r, "개 중 ");
        let shown_n = u64_to_string(n as u64);
        push_str(&mut r, shown_n.as_str());
        push_str(&mut r, "개만 표시)");
    }
    r
}

/// The file name of a path, or the path itself when it names none.
pub open spec fn name_or_path(p: Seq<char>) -> Seq<char> {
    match path_file_name(p) {
        Some(n) => n,
        None => p,
    }
}

/// What listing a file (not a folder) answers: that one file's line.
pub fn list_single_file(path: &str, size: u64, modified: &str) -> (r: String)
    ensures
        r@ == "type\tsize\tmodified\tname\nfile\t"@ + decimal(size as nat) + "\t"@ + modified@ + "\t"@
            + name_or_path(path@) + "\n(이 경로는 폴더가 아니라 파일 1개입니다)"@,
{
    let v = chars_of(path);
    let name = match crate::fallback::file_name_opt(v.as_slice()) {
        Some(n) => string_of(n.as_slice()),
        None => to_string(path),
    };
    let mut r = to_string("type\tsize\tmodified\tname\nfile\t");
    let s = u64_to_string(size);
    push_str(&mut r, s.as_str());
    push_str(&mut r, "\t");
    push_str(&mut r, modified);
    push_str(&mut r, "\t");
    push_str(&mut r, name.as_str());
    push_str(&mut r, "\n(이 경로는 폴더가 아니라 파일 1개입니다)");
    r
}

// ---------------------------------------------------------------------------
// Reading
// ---------------------------------------------------------------------------

/// The lower-cased extension of a path's file name (empty when it has none).
pub open spec fn lower_extension(p: Seq<char>) -> Seq<char> {
    match extension_spec(file_name_spec(p)) {
        Some(e) => lower_text(e),
        None => Seq::empty(),
    }
}

pub open spec fn image_exts() -> Seq<Seq<char>> {
    seq!["png"@, "jpg"@, "jpeg"@, "webp"@, "bmp"@, "gif"@, "tiff"@, "tif"@]
}

/// The tool to use instead when a binary file is to be read as text.
pub open spec fn redirect_text(p: Seq<char>) -> Option<Seq<char>> {
    let e = lower_extension(p);
    if e == "pdf"@ {
        Some("PDF 파일입니다. 텍스트를 보려면 pdf_extract_text 를 사용하세요."@)
    } else if image_exts().contains(e) {
        Some("이미지 파일입니다. 정보를 보려면 image_info 를 사용하세요."@)
    } else if e == "zip"@ {
        Some("압축 파일입니다. 내용을 보려면 zip_extract(list_only=true) 를 사용하세요."@)
    } else {
        None
    }
}

/// The lower-cased extension of a path's file name.
pub fn lower_extension_of(p: &str) -> (r: String)
    ensures
        r@ == lower_extension(p@),
{
    match crate::paths::extension_of(p) {
        Some(e) => to_lowercase(e.as_str()),
        None => String::new(),
    }
}

/// Refuses to read PDFs, images and archives as text, naming the right tool.
pub fn binary_redirect(path: &str) -> (r: Option<String>)
    ensures
        match r {
            Some(m) => redirect_text(path@) == Some(m@),
            None => redirect_text(path@) is None,
        },
{
    let e = lower_extension_of(path);
    if crate::text::text_eq(e.as_str(), "pdf") {
        return Some(to_string("PDF 파일입니다. 텍스트를 보려면 pdf_extract_text 를 사용하세요."));
    }
    let imgs: [&str; 8] = ["png", "jpg", "jpeg", "webp", "bmp", "gif", "tiff", "tif"];
    let ghost iv = image_exts();
    let mut i: usize = 0;
    while i < 8
        invariant
            i <= 8,
            iv == image_exts(),
            e@ == lower_extension(path@),
            e@ != "pdf"@,
            forall|j: int| 0 <= j < 8 ==> (#[trigger] imgs@[j])@ == iv[j],
            forall|j: int| 0 <= j < i ==> iv[j] != e@,
        decreases 8 - i,
    {
        if crate::text::text_eq(e.as_str(), imgs[i]) {
            assert(iv[i as int] == e@);
            return Some(to_string("이미지 파일입니다. 정보를 보려면 image_info 를 사용하세요."));
        }
        i += 1;
    }
    assert(!iv.contains(e@));
    if crate::text::text_eq(e.as_str(), "zip") {
        return Some(to_string(
            "압축 파일입니다. 내용을 보려면 zip_extract(list_only=true) 를 사용하세요.",
        ));
    }
    None
}

/// The text that `String::from_utf8_lossy` makes of bytes (invalid sequences
/// become U+FFFD).
pub uninterp spec fn utf8_lossy(b: Seq<u8>) -> Seq<char>;

/// Calls `String::from_utf8_lossy`; the result is named [`utf8_lossy`] of the bytes.
#[verifier::external_body]
pub(crate) fn decode_lossy(b: &[u8]) -> (r: String)
    ensures
        r@ == utf8_lossy(b@),
{
    String::from_utf8_lossy(b).into_owned()
}

/// What reading a file answers: its first 64 KiB decoded (invalid UTF-8 replaced),
/// with a note when the file (`file_len` bytes) is longer.
pub fn read_text(bytes: &[u8], file_len: u64) -> (r: String)
    ensures
        ({
            let take = if bytes@.len() < MAX_READ_BYTES {
                bytes@.len() as int
            } else {
                MAX_READ_BYTES as int
            };
            r@ == utf8_lossy(bytes@.take(take)) + if file_len > MAX_READ_BYTES {
                "\n...(잘림: 전체 "@ + decimal(file_len as nat) + " bytes 중 "@ + decimal(take as nat)
                    + " bytes만 표시)"@
            } else {
                Seq::<char>::empty()
            }
        }),
{
    let take: usize = if (bytes.len() as u64) < MAX_READ_BYTES {
        bytes.len()
    } else {
        65536
    };
    let mut head: Vec<u8> = Vec::new();
    let mut i: usize = 0;
    while i < take
        invariant
            i <= take <= bytes@.len(),
            head@ =~= bytes@.take(i as int),
        decreases take - i,
    {
        head.push(bytes[i]);
        i += 1;
    }
    let mut text = decode_lossy(head.as_slice());
    if file_len > MAX_READ_BYTES {
        push_str(&mut text, "\n...(잘림: 전체 ");
        let fl = u64_to_string(file_len);
        push_str(&mut text, fl.as_str());
        push_str(&mut text, " bytes 중 ");
        let tk = u64_to_string(take as u64);
        push_str(&mut text, tk.as_str());
        push_str(&mut text, " bytes만 표시)");
    } else {
        assert(text@ + Seq::<char>::empty() =~= text@);
    }
    text
}

// ---------------------------------------------------------------------------
// Writing, moving, copying, deleting
// ---------------------------------------------------------------------------

pub open spec fn written_text(path: Seq<char>, content: Seq<char>) -> Seq<char> {
    "저장 완료: "@ + path + " ("@ + decimal(utf8_len(content)) + " bytes)"@
}

/// The refusal to overwrite an existing file without `overwrite`.
pub fn exists_refusal(path: &str) -> (r: String)
    ensures
        r@ == "파일이 이미 존재함: "@ + path@ + ". 덮어쓰려면 overwrite=true 로 다시 호출."@,
{
    let mut r = to_string("파일이 이미 존재함: ");
    push_str(&mut r, path);
    push_str(&mut r, ". 덮어쓰려면 overwrite=true 로 다시 호출.");
    r
}

/// Number of UTF-8 bytes of a text, saturated at `u64::MAX`.
fn byte_count(s: &str) -> (n: u64)
    ensures
        n as nat == (if utf8_len(s@) > u64::MAX {
            u64::MAX as nat
        } else {
            utf8_len(s@)
        }),
{
    let v = chars_of(s);
    let mut n: u64 = 0;
    let mut i: usize = 0;
    while i < v.len()
        invariant
            i <= v@.len(),
            v@ == s@,
            n as nat == (if utf8_len(v@.take(i as int)) > u64::MAX {
                u64::MAX as nat
            } else {
                utf8_len(v@.take(i as int))
            }),
        decreases v.len() - i,
    {
        let u = v[i] as u32;
        let w: u64 = if u < 0x80 {
            1
        } else if u < 0x800 {
            2
        } else if u < 0x10000 {
            3
        } else {
            4
        };
        assert(v@.take(i + 1).drop_last() =~= v@.take(i as int));
        n = n.saturating_add(w);
        i += 1;
    }
    assert(v@.take(v@.len() as int) =~= v@);
    n
}

/// The report of a written file.
pub fn write_report(path: &str, content: &str) -> (r: String)
    requires
        utf8_len(content@) <= u64::MAX,
    ensures
        r@ == written_text(path@, content@),
{
    let mut r = to_string("저장 완료: ");
    push_str(&mut r, path);
    push_str(&mut r, " (");
    let n = byte_count(content);
    let t = u64_to_string(n);
    push_str(&mut r, t.as_str());
    push_str(&mut r, " bytes)");
    r
}

/// The refusal to move or copy onto an existing target.
pub fn target_exists_refusal(to: &str) -> (r: String)
    ensures
        r@ == "대상이 이미 존재함: "@ + to@,
{
    let mut r = to_string("대상이 이미 존재함: ");
    push_str(&mut r, to);
    r
}

pub fn move_report(from: &str, to: &str) -> (r: String)
    ensures
        r@ == "이동 완료: "@ + from@ + " -> "@ + to@,
{
    let mut r = to_string("이동 완료: ");
    push_str(&mut r, from);
    push_str(&mut r, " -> ");
    push_str(&mut r, to);
    r
}

pub fn copy_report(from: &str, to: &str, bytes: u64) -> (r: String)
    ensures
        r@ == "복사 완료: "@ + from@ + " -> "@ + to@ + " ("@ + decimal(bytes as nat) + " bytes)"@,
{
    let mut r = to_string("복사 완료: ");
    push_str(&mut r, from);
    push_str(&mut r, " -> ");
    push_str(&mut r, to);
    push_str(&mut r, " (");
    let t = u64_to_string(bytes);
    push_str(&mut r, t.as_str());
    push_str(&mut r, " bytes)");
    r
}

pub fn delete_report(path: &str) -> (r: String)
    ensures
        r@ == "휴지통으로 이동 완료: "@ + path@,
{
    let mut r = to_string("휴지통으로 이동 완료: ");
    push_str(&mut r, path);
    r
}

// ---------------------------------------------------------------------------
// Renaming
// ---------------------------------------------------------------------------

/// The new name, trimmed; refused when empty or when it holds a separator (moving
/// to another folder is `move_path`'s job).
pub open spec fn new_name_spec(n: Seq<char>) -> Result<Seq<char>, Seq<char>> {
    let t = trim(n);
    if t.len() == 0 {
        Err("new_name이 비어 있음"@)
    } else if t.contains('/') || t.contains('\\') {
        Err("new_name에 경로 구분자를 쓸 수 없음. 다른 폴더로 옮기려면 move_path를 사용"@)
    } else {
        Ok(t)
    }
}

pub fn check_new_name(new_name: &str) -> (r: Result<String, String>)
    ensures
        match r {
            Ok(t) => new_name_spec(new_name@) == Ok::<Seq<char>, Seq<char>>(t@),
            Err(m) => new_name_spec(new_name@) == Err::<Seq<char>, Seq<char>>(m@),
        },
{
    let t = crate::text::trim_str(new_name);
    let tv = chars_of(t.as_str());
    if tv.len() == 0 {
        return Err(to_string("new_name이 비어 있음"));
    }
    if crate::text::contains_char(tv.as_slice(), '/') || crate::text::contains_char(
        tv.as_slice(),
        '\\',
    ) {
        return Err(to_string(
            "new_name에 경로 구분자를 쓸 수 없음. 다른 폴더로 옮기려면 move_path를 사용",
        ));
    }
    Ok(t)
}

/// The renamed path: in the same folder; a file renamed without an extension keeps
/// its own (folders never get one: `v1.0` is not an extension).
pub open spec fn rename_target_spec(path: Seq<char>, new_name: Seq<char>, is_file: bool) -> Seq<char> {
    let name = if is_file && !new_name.contains('.') {
        match extension_spec(file_name_spec(path)) {
            Some(e) => new_name + "."@ + e,
            None => new_name,
        }
    } else {
        new_name
    };
    dir_part(path) + name
}

pub fn rename_target(path: &str, new_name: &str, is_file: bool) -> (r: String)
    ensures
        r@ == rename_target_spec(path@, new_name@, is_file),
{
    let nv = chars_of(new_name);
    let mut name = to_string(new_name);
    if is_file && !crate::text::contains_char(nv.as_slice(), '.') {
        match crate::paths::extension_of(path) {
            Some(e) => {
                push_str(&mut name, ".");
                push_str(&mut name, e.as_str());
            },
            None => {},
        }
    }
    crate::paths::with_file_name(path, name.as_str())
}

pub fn rename_exists_refusal(to: &str) -> (r: String)
    ensures
        r@ == "같은 이름이 이미 존재함: "@ + to@,
{
    let mut r = to_string("같은 이름이 이미 존재함: ");
    push_str(&mut r, to);
    r
}

pub fn rename_report(path: &str, to: &str) -> (r: String)
    ensures
        r@ == "이름 변경 완료: "@ + path@ + " -> "@ + to@,
{
    let mut r = to_string("이름 변경 완료: ");
    push_str(&mut r, path);
    push_str(&mut r, " -> ");
    push_str(&mut r, to);
    r
}

} // verus!

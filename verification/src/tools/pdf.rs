//! PDF tools: checking an `images_to_pdf` request and its inputs, reading the
//! component count of a JPEG frame header, choosing how each image is embedded,
//! and the reports of both PDF tools. Decoding images, laying pages out and writing
//! the document is the caller's.
use vstd::prelude::*;

use crate::paths::{dir_part, extension_spec, file_name_spec, stem_spec};
use crate::text::{ascii_lower_seq, chars_of, decimal, push_str, to_string, trim, u64_to_string};
use crate::tools::image::{ext_or_empty, opt_str_view};

verus! {

/// Characters of extracted text returned when the call gives no limit.
pub const DEFAULT_MAX_CHARS: u64 = 20000;

/// Puts images into a PDF, one page each.
pub struct ImagesToPdf;

impl ImagesToPdf {
    pub fn name(&self) -> (r: &'static str)
        ensures
            r@ == "images_to_pdf"@,
    {
        "images_to_pdf"
    }

    pub fn description(&self) -> (r: &'static str)
        ensures
            r@ == crate::tools::tool_description(crate::tools::ToolKind::ImagesToPdf),
    {
        "여러 이미지를 한 장씩 페이지로 묶어 PDF 파일을 만든다. 이미지 순서 = 페이지 순서."
    }
}

/// Extracts the text of a PDF.
pub struct PdfExtractText;

impl PdfExtractText {
    pub fn name(&self) -> (r: &'static str)
        ensures
            r@ == "pdf_extract_text"@,
    {
        "pdf_extract_text"
    }

    pub fn description(&self) -> (r: &'static str)
        ensures
            r@ == crate::tools::tool_description(crate::tools::ToolKind::PdfExtractText),
    {
        "PDF 파일에서 텍스트를 추출한다. PDF 요약/검색/질문답변 전에 반드시 먼저 호출한다."
    }
}

// ---------------------------------------------------------------------------
// JPEG frame header
// ---------------------------------------------------------------------------

/// Start-of-frame markers: `C0`–`CF` but for `C4` (Huffman table), `C8` (reserved)
/// and `CC` (arithmetic coding).
pub open spec fn is_sof(m: u8) -> bool {
    0xC0 <= m <= 0xCF && m != 0xC4 && m != 0xC8 && m != 0xCC
}

/// Markers without a length field: restart markers, SOI, EOI and TEM.
pub open spec fn is_standalone(m: u8) -> bool {
    (0xD0 <= m <= 0xD9) || m == 0x01
}

/// Walks the marker segments of `b` from `i` to the first frame header and gives
/// its component count (`Nf`, the ninth byte of the segment).
pub open spec fn jpeg_scan(b: Seq<u8>, i: int) -> Option<u8>
    decreases (if i < b.len() {
        b.len() - i
    } else {
        0
    }),
{
    if i < 0 || i + 4 > b.len() {
        None
    } else if b[i] != 0xFF {
        jpeg_scan(b, i + 1)
    } else if is_standalone(b[i + 1]) {
        jpeg_scan(b, i + 2)
    } else if is_sof(b[i + 1]) {
        if i + 9 < b.len() {
            Some(b[i + 9])
        } else {
            None
        }
    } else {
        jpeg_scan(b, i + 2 + (b[i + 2] as int) * 256 + (b[i + 3] as int))
    }
}

/// The number of components of a JPEG's frame (1 grey, 3 YCbCr/RGB, 4 CMYK/YCCK),
/// or `None` when the bytes do not start a JPEG or no frame header is found.
pub open spec fn jpeg_components(b: Seq<u8>) -> Option<u8> {
    if b.len() < 4 || b[0] != 0xFF || b[1] != 0xD8 {
        None
    } else {
        jpeg_scan(b, 2)
    }
}

pub fn jpeg_component_count(bytes: &[u8]) -> (r: Option<u8>)
    ensures
        r == jpeg_components(bytes@),
{
    if bytes.len() < 4 || bytes[0] != 0xFF || bytes[1] != 0xD8 {
        return None;
    }
    let n = bytes.len();
    let mut i: usize = 2;
    while i <= n && n - i >= 4
        invariant
            n == bytes@.len(),
            2 <= i,
            jpeg_scan(bytes@, i as int) == jpeg_components(bytes@),
        decreases n - i,
    {
        if bytes[i] != 0xFF {
            i += 1;
        } else {
            let marker = bytes[i + 1];
            if (0xD0 <= marker && marker <= 0xD9) || marker == 0x01 {
                i += 2;
            } else {
                let len: usize = (bytes[i + 2] as usize) * 256 + bytes[i + 3] as usize;
                if 0xC0 <= marker && marker <= 0xCF && marker != 0xC4 && marker != 0xC8 && marker
                    != 0xCC {
                    if n - i > 9 {
                        return Some(bytes[i + 9]);
                    } else {
                        return None;
                    }
                }
                if n - i < 2 + len {
                    assert(jpeg_scan(bytes@, i + 2 + len) is None);
                    return None;
                }
                i += 2 + len;
            }
        }
    }
    None
}

// ---------------------------------------------------------------------------
// images_to_pdf
// ---------------------------------------------------------------------------

/// The page size of the document.
#[derive(Clone, Copy, Debug, PartialEq, Eq, Structural)]
pub enum PageSize {
    A4,
    Letter,
    /// Each page as large as its image.
    Fit,
}

impl PageSize {
    /// `a4`, `letter` or `fit`, surrounding white space and ASCII case ignored.
    pub open spec fn parse_spec(s: Seq<char>) -> Option<PageSize> {
        let t = ascii_lower_seq(trim(s));
        if t == "a4"@ {
            Some(PageSize::A4)
        } else if t == "letter"@ {
            Some(PageSize::Letter)
        } else if t == "fit"@ {
            Some(PageSize::Fit)
        } else {
            None
        }
    }

    pub fn parse(s: &str) -> (r: Option<PageSize>)
        ensures
            r == PageSize::parse_spec(s@),
    {
        let t = crate::text::trim_str(s);
        let tv = chars_of(t.as_str());
        let l = crate::text::ascii_lowercase(tv.as_slice());
        let ls = crate::text::string_of(l.as_slice());
        if crate::text::text_eq(ls.as_str(), "a4") {
            Some(PageSize::A4)
        } else if crate::text::text_eq(ls.as_str(), "letter") {
            Some(PageSize::Letter)
        } else if crate::text::text_eq(ls.as_str(), "fit") {
            Some(PageSize::Fit)
        } else {
            None
        }
    }
}

/// The page size a call asks for: A4 when it names none; an unknown name is
/// refused.
pub open spec fn page_size_spec(arg: Option<Seq<char>>) -> Result<PageSize, Seq<char>> {
    match arg {
        None => Ok(PageSize::A4),
        Some(s) => match PageSize::parse_spec(s) {
            Some(p) => Ok(p),
            None => Err("page_size 는 a4|letter|fit 중 하나: "@ + s),
        },
    }
}

pub fn page_size_arg(arg: Option<&str>) -> (r: Result<PageSize, String>)
    ensures
        match r {
            Ok(p) => page_size_spec(opt_str_view(arg)) == Ok::<PageSize, Seq<char>>(p),
            Err(e) => page_size_spec(opt_str_view(arg)) == Err::<PageSize, Seq<char>>(e@),
        },
{
    match arg {
        None => Ok(PageSize::A4),
        Some(s) => match PageSize::parse(s) {
            Some(p) => Ok(p),
            None => {
                let mut r = to_string("page_size 는 a4|letter|fit 중 하나: ");
                push_str(&mut r, s);
                Err(r)
            },
        },
    }
}

/// The request's own checks, in order: at least one image, and a `.pdf` output
/// (extension compared without ASCII case).
pub open spec fn pdf_request_spec(n_paths: nat, output: Seq<char>) -> Result<(), Seq<char>> {
    if n_paths == 0 {
        Err("필수 인자 누락: paths (이미지 경로 배열)"@)
    } else if !(extension_spec(file_name_spec(output)) is Some && ascii_lower_seq(
        ext_or_empty(output),
    ) == "pdf"@) {
        Err("출력은 .pdf 만 가능: "@ + output)
    } else {
        Ok(())
    }
}

pub fn check_pdf_request(paths: &Vec<String>, output: &str) -> (r: Result<(), String>)
    ensures
        match r {
            Ok(()) => pdf_request_spec(paths@.len(), output@) is Ok,
            Err(e) => pdf_request_spec(paths@.len(), output@) == Err::<(), Seq<char>>(e@),
        },
{
    if paths.len() == 0 {
        return Err(to_string("필수 인자 누락: paths (이미지 경로 배열)"));
    }
    let ok = match crate::paths::extension_of(output) {
        Some(e) => {
            let ev = chars_of(e.as_str());
            let l = crate::text::ascii_lowercase(ev.as_slice());
            let ls = crate::text::string_of(l.as_slice());
            crate::text::text_eq(ls.as_str(), "pdf")
        },
        None => false,
    };
    if !ok {
        let mut r = to_string("출력은 .pdf 만 가능: ");
        push_str(&mut r, output);
        return Err(r);
    }
    Ok(())
}

/// What an input's extension says of it.
#[derive(Clone, Copy, Debug, PartialEq, Eq, Structural)]
pub struct InputKind {
    pub is_jpeg: bool,
    pub is_webp: bool,
}

/// An input must be PNG, JPEG, BMP or WebP by its extension (ASCII case ignored).
pub open spec fn input_kind_spec(path: Seq<char>) -> Result<InputKind, Seq<char>> {
    let e = ascii_lower_seq(ext_or_empty(path));
    if e == "png"@ || e == "jpg"@ || e == "jpeg"@ || e == "bmp"@ || e == "webp"@ {
        Ok(InputKind { is_jpeg: e == "jpg"@ || e == "jpeg"@, is_webp: e == "webp"@ })
    } else {
        Err("지원하지 않는 형식: "@ + e + " (png, jpg, jpeg, bmp, webp 만 지원)"@)
    }
}

pub fn input_kind(path: &str) -> (r: Result<InputKind, String>)
    ensures
        match r {
            Ok(k) => input_kind_spec(path@) == Ok::<InputKind, Seq<char>>(k),
            Err(e) => input_kind_spec(path@) == Err::<InputKind, Seq<char>>(e@),
        },
{
    let e0 = match crate::paths::extension_of(path) {
        Some(e) => e,
        None => String::new(),
    };
    let ev = chars_of(e0.as_str());
    let l = crate::text::ascii_lowercase(ev.as_slice());
    let e = crate::text::string_of(l.as_slice());
    let jpg = crate::text::text_eq(e.as_str(), "jpg") || crate::text::text_eq(e.as_str(), "jpeg");
    let webp = crate::text::text_eq(e.as_str(), "webp");
    if crate::text::text_eq(e.as_str(), "png") || jpg || crate::text::text_eq(e.as_str(), "bmp")
        || webp {
        Ok(InputKind { is_jpeg: jpg, is_webp: webp })
    } else {
        let mut r = to_string("지원하지 않는 형식: ");
        push_str(&mut r, e.as_str());
        push_str(&mut r, " (png, jpg, jpeg, bmp, webp 만 지원)");
        Err(r)
    }
}

/// The refusal of an animated WebP input.
pub fn animated_webp_error(path: &str) -> (r: String)
    ensures
        r@ == "animated webp 는 지원하지 않음: "@ + path@,
{
    let mut r = to_string("animated webp 는 지원하지 않음: ");
    push_str(&mut r, path);
    r
}

/// One line of the batch refusal: the input and why it was refused.
pub fn input_error_line(path: &str, reason: &str) -> (r: String)
    ensures
        r@ == path@ + ": "@ + reason@,
{
    let mut r = to_string(path);
    push_str(&mut r, ": ");
    push_str(&mut r, reason);
    r
}

/// The refusal of a batch in which some inputs failed their check: all of them are
/// named at once.
pub fn batch_error(errors: &Vec<String>) -> (r: String)
    ensures
        r@ == "입력 검증 실패 ("@ + decimal(errors@.len()) + "건):\n"@
            + crate::tools::fs::join_lines_nl(errors@.map_values(|s: String| s@)),
{
    let mut r = to_string("입력 검증 실패 (");
    let c = u64_to_string(errors.len() as u64);
    push_str(&mut r, c.as_str());
    push_str(&mut r, "건):\n");
    let ghost r0 = r@;
    let ghost lv = errors@.map_values(|s: String| s@);
    let mut i: usize = 0;
    while i < errors.len()
        invariant
            i <= errors@.len(),
            lv == errors@.map_values(|s: String| s@),
            r@ == r0 + crate::tools::fs::join_lines_nl(lv.take(i as int)),
        decreases errors.len() - i,
    {
        if i > 0 {
            push_str(&mut r, "\n");
        }
        push_str(&mut r, errors[i].as_str());
        proof {
            let t = lv.take(i + 1);
            assert(t.drop_last() =~= lv.take(i as int));
            assert(r@ =~= r0 + crate::tools::fs::join_lines_nl(t));
        }
        i += 1;
    }
    assert(lv.take(lv.len() as int) =~= lv);
    r
}

/// How an image is put into the document.
#[derive(Clone, Copy, Debug, PartialEq, Eq, Structural)]
pub enum Embedding {
    /// Decoded, turned upright, composed on white, stored as raw RGB.
    Corrected,
    /// The JPEG's own compressed data, unchanged.
    JpegPassthrough,
    /// Decoded and stored as raw RGB.
    Raw,
}

/// An image is decoded and corrected when it carries an EXIF rotation, an alpha
/// channel or CMYK JPEG data; otherwise a JPEG is embedded as it is and any other
/// image as raw RGB.
pub open spec fn embedding_spec(rotated: bool, has_alpha: bool, is_cmyk_jpeg: bool, is_jpeg: bool) -> Embedding {
    if rotated || has_alpha || is_cmyk_jpeg {
        Embedding::Corrected
    } else if is_jpeg {
        Embedding::JpegPassthrough
    } else {
        Embedding::Raw
    }
}

pub fn choose_embedding(rotated: bool, has_alpha: bool, is_cmyk_jpeg: bool, is_jpeg: bool) -> (r:
    Embedding)
    ensures
        r == embedding_spec(rotated, has_alpha, is_cmyk_jpeg, is_jpeg),
{
    if rotated || has_alpha || is_cmyk_jpeg {
        Embedding::Corrected
    } else if is_jpeg {
        Embedding::JpegPassthrough
    } else {
        Embedding::Raw
    }
}

/// A JPEG input is CMYK when its frame has four components.
pub fn is_cmyk_jpeg(is_jpeg: bool, bytes: &[u8]) -> (r: bool)
    ensures
        r == (is_jpeg && jpeg_components(bytes@) == Some(4u8)),
{
    if !is_jpeg {
        return false;
    }
    match jpeg_component_count(bytes) {
        Some(n) => n == 4,
        None => false,
    }
}

/// The file the document is first written to before it is renamed into place
/// (`Path::with_extension("pdf.tmp")`).
pub open spec fn temp_path_spec(output: Seq<char>) -> Seq<char> {
    dir_part(output) + stem_spec(file_name_spec(output)) + ".pdf.tmp"@
}

pub fn temp_path(output: &str) -> (r: String)
    ensures
        r@ == temp_path_spec(output@),
{
    let mut name = crate::paths::file_stem_of(output);
    push_str(&mut name, ".pdf.tmp");
    let r = crate::paths::with_file_name(output, name.as_str());
    assert(r@ =~= temp_path_spec(output@));
    r
}

/// The report of a finished document of `pages` pages and `size` bytes.
pub fn pdf_report(output: &str, pages: u64, size: u64) -> (r: String)
    ensures
        r@ == "PDF 생성 완료: "@ + output@ + " ("@ + decimal(pages as nat) + "페이지, "@ + decimal(
            size as nat,
        ) + " bytes)"@,
{
    let mut r = to_string("PDF 생성 완료: ");
    push_str(&mut r, output);
    push_str(&mut r, " (");
    let p = u64_to_string(pages);
    push_str(&mut r, p.as_str());
    push_str(&mut r, "페이지, ");
    let s = u64_to_string(size);
    push_str(&mut r, s.as_str());
    push_str(&mut r, " bytes)");
    r
}

// ---------------------------------------------------------------------------
// pdf_extract_text
// ---------------------------------------------------------------------------

pub open spec fn scanned_pdf_note() -> Seq<char> {
    "이 PDF는 글자가 없는 스캔본(이미지 기반)이라 텍스트 추출 결과가 비어 있습니다. 이 사실을 그대로 사용자에게 알리고 마무리하세요."@
}

/// What `pdf_extract_text` answers for the extracted `text`: the trimmed text, cut
/// to `max_chars` characters with a note of the full length when longer; a note
/// that the PDF is a scan when nothing is left.
pub open spec fn pdf_text_spec(text: Seq<char>, max_chars: u64) -> Seq<char> {
    let t = trim(text);
    if t.len() == 0 {
        scanned_pdf_note()
    } else if t.len() > max_chars {
        t.take(max_chars as int) + "\n...(잘림: 전체 "@ + decimal(t.len()) + "자 중 "@ + decimal(
            max_chars as nat,
        ) + "자)"@
    } else {
        t
    }
}

pub fn pdf_text_report(text: &str, max_chars: u64) -> (r: String)
    ensures
        r@ == pdf_text_spec(text@, max_chars),
{
    let t = crate::text::trim_str(text);
    let v = chars_of(t.as_str());
    if v.len() == 0 {
        return to_string(
            "이 PDF는 글자가 없는 스캔본(이미지 기반)이라 텍스트 추출 결과가 비어 있습니다. 이 사실을 그대로 사용자에게 알리고 마무리하세요.",
        );
    }
    if (v.len() as u64) <= max_chars {
        return t;
    }
    let k = max_chars as usize;
    let mut r = crate::text::string_of_range(v.as_slice(), 0, k);
    assert(v@.subrange(0, k as int) =~= v@.take(max_chars as int));
    push_str(&mut r, "\n...(잘림: 전체 ");
    let a = u64_to_string(v.len() as u64);
    push_str(&mut r, a.as_str());
    push_str(&mut r, "자 중 ");
    let b = u64_to_string(max_chars);
    push_str(&mut r, b.as_str());
    push_str(&mut r, "자)");
    r
}

/// The refusal when the PDF cannot be read.
pub fn pdf_extract_error(path: &str) -> (r: String)
    ensures
        r@ == "PDF 텍스트 추출 실패: "@ + path@,
{
    let mut r = to_string("PDF 텍스트 추출 실패: ");
    push_str(&mut r, path);
    r
}

} // verus!

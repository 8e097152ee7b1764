//! The image tools' decisions: which edits a call asks for and in what order,
//! which inputs and outputs are accepted, where results are written, and the
//! reports. Decoding, resampling, masking and encoding pixels is the caller's.
use vstd::prelude::*;

use crate::paths::{
    dir_part, ensure_spec, extension_spec, file_name_spec, is_abs, join_spec, path_error_text,
    stem_spec,
};
use crate::text::{ascii_lower_seq, chars_of, decimal, lower_text, push_str, to_string};

verus! {

/// Side of the square the background model reads.
pub const MODEL_INPUT_SIZE: u32 = 768;

/// Reports size, format and file size of an image.
pub struct ImageInfo;

impl ImageInfo {
    pub fn name(&self) -> (r: &'static str)
        ensures
            r@ == "image_info"@,
    {
        "image_info"
    }

    pub fn description(&self) -> (r: &'static str)
        ensures
            r@ == crate::tools::tool_description(crate::tools::ToolKind::ImageInfo),
    {
        "이미지의 크기(가로x세로), 포맷, 파일 크기를 조회한다."
    }
}

/// Resizes, rotates, greys or converts an image.
pub struct ImageTransform;

impl ImageTransform {
    pub fn name(&self) -> (r: &'static str)
        ensures
            r@ == "image_transform"@,
    {
        "image_transform"
    }

    pub fn description(&self) -> (r: &'static str)
        ensures
            r@ == crate::tools::tool_description(crate::tools::ToolKind::ImageTransform),
    {
        "이미지를 리사이즈/회전/그레이스케일/포맷변환한다. output_path 를 생략하면 원본 옆에 _edited 로 저장."
    }
}

/// Removes an image's background into a transparent PNG.
pub struct RemoveBackground;

impl RemoveBackground {
    pub fn name(&self) -> (r: &'static str)
        ensures
            r@ == "remove_background"@,
    {
        "remove_background"
    }

    pub fn description(&self) -> (r: &'static str)
        ensures
            r@ == crate::tools::tool_description(crate::tools::ToolKind::RemoveBackground),
    {
        "배경제거(누끼따기) 전용 도구. 이미지의 배경을 제거해 투명 배경 PNG 로 저장한다. output_path 생략 시 워크스페이스에 _nobg.png 로 저장(첨부 이미지처럼 입력이 워크스페이스 밖이어도 결과는 워크스페이스로 저장됨)."
    }
}

pub open spec fn opt_str_view(o: Option<&str>) -> Option<Seq<char>> {
    match o {
        Some(s) => Some(s@),
        None => None,
    }
}

/// The extension of a path's last name, or the empty text.
pub open spec fn ext_or_empty(p: Seq<char>) -> Seq<char> {
    match extension_spec(file_name_spec(p)) {
        Some(e) => e,
        None => Seq::empty(),
    }
}

fn ext_text(p: &str) -> (r: String)
    ensures
        r@ == ext_or_empty(p@),
{
    match crate::paths::extension_of(p) {
        Some(e) => e,
        None => String::new(),
    }
}

fn ascii_lower_str(s: &str) -> (r: String)
    ensures
        r@ == ascii_lower_seq(s@),
{
    let v = chars_of(s);
    let l = crate::text::ascii_lowercase(v.as_slice());
    crate::text::string_of(l.as_slice())
}

fn is_one_of(s: &str, options: &[&str]) -> (r: bool)
    ensures
        r == crate::text::strs_view(options@).contains(s@),
{
    let ghost ov = crate::text::strs_view(options@);
    let mut i: usize = 0;
    while i < options.len()
        invariant
            i <= options@.len(),
            ov == crate::text::strs_view(options@),
            forall|j: int| 0 <= j < i ==> ov[j] != s@,
        decreases options.len() - i,
    {
        if crate::text::text_eq(s, options[i]) {
            assert(ov[i as int] == s@);
            return true;
        }
        i += 1;
    }
    assert(!ov.contains(s@));
    false
}

// ---------------------------------------------------------------------------
// Formats
// ---------------------------------------------------------------------------

/// The name `image::ImageFormat` prints (`{:?}`) for the format that an extension,
/// ASCII lower-cased, names; `None` for an extension it does not know.
pub open spec fn format_name_of_ext(ext: Seq<char>) -> Option<Seq<char>> {
    let e = ascii_lower_seq(ext);
    if e == "avif"@ {
        Some("Avif"@)
    } else if e == "jpg"@ || e == "jpeg"@ || e == "jfif"@ {
        Some("Jpeg"@)
    } else if e == "png"@ || e == "apng"@ {
        Some("Png"@)
    } else if e == "gif"@ {
        Some("Gif"@)
    } else if e == "webp"@ {
        Some("WebP"@)
    } else if e == "tif"@ || e == "tiff"@ {
        Some("Tiff"@)
    } else if e == "tga"@ {
        Some("Tga"@)
    } else if e == "dds"@ {
        Some("Dds"@)
    } else if e == "bmp"@ {
        Some("Bmp"@)
    } else if e == "ico"@ {
        Some("Ico"@)
    } else if e == "hdr"@ {
        Some("Hdr"@)
    } else if e == "exr"@ {
        Some("OpenExr"@)
    } else if e == "pbm"@ || e == "pam"@ || e == "ppm"@ || e == "pgm"@ || e == "pnm"@ {
        Some("Pnm"@)
    } else if e == "ff"@ {
        Some("Farbfeld"@)
    } else if e == "qoi"@ {
        Some("Qoi"@)
    } else {
        None
    }
}

/// Calls `image::ImageFormat::from_extension` and prints the format with `{:?}`.
/// The contract is the crate's extension table (ASCII case ignored) with the
/// variants' names.
#[verifier::external_body]
fn format_from_extension(ext: &str) -> (r: Option<String>)
    ensures
        match r {
            Some(n) => format_name_of_ext(ext@) == Some(n@),
            None => format_name_of_ext(ext@) is None,
        },
{
    image::ImageFormat::from_extension(ext).map(|f| format!("{f:?}"))
}

/// The format an image path names by its extension, or `unknown`.
pub open spec fn format_label(path: Seq<char>) -> Seq<char> {
    match extension_spec(file_name_spec(path)) {
        Some(e) => match format_name_of_ext(e) {
            Some(n) => n,
            None => "unknown"@,
        },
        None => "unknown"@,
    }
}

pub fn format_of_path(path: &str) -> (r: String)
    ensures
        r@ == format_label(path@),
{
    match crate::paths::extension_of(path) {
        Some(e) => match format_from_extension(e.as_str()) {
            Some(n) => n,
            None => to_string("unknown"),
        },
        None => to_string("unknown"),
    }
}

pub open spec fn info_text(path: Seq<char>, w: u32, h: u32, format: Seq<char>, size: u64) -> Seq<
    char,
> {
    path + ": "@ + decimal(w as nat) + "x"@ + decimal(h as nat) + " px, 포맷 "@ + format + ", "@
        + decimal(size as nat) + " bytes"@
}

/// The report of `image_info` for an image of `width`×`height` pixels and `size`
/// bytes.
pub fn image_info_report(path: &str, width: u32, height: u32, size: u64) -> (r: String)
    ensures
        r@ == info_text(path@, width, height, format_label(path@), size),
{
    let f = format_of_path(path);
    let mut r = to_string(path);
    push_str(&mut r, ": ");
    let ws = crate::text::u64_to_string(width as u64);
    push_str(&mut r, ws.as_str());
    push_str(&mut r, "x");
    let hs = crate::text::u64_to_string(height as u64);
    push_str(&mut r, hs.as_str());
    push_str(&mut r, " px, 포맷 ");
    push_str(&mut r, f.as_str());
    push_str(&mut r, ", ");
    let ss = crate::text::u64_to_string(size);
    push_str(&mut r, ss.as_str());
    push_str(&mut r, " bytes");
    r
}

/// The refusal of `image_info` for a file that is not an image.
pub fn not_image_error(path: &str) -> (r: String)
    ensures
        r@ == "이 파일은 이미지가 아닙니다: "@ + path@ + ". 이 사실을 그대로 사용자에게 알리세요."@,
{
    let mut r = to_string("이 파일은 이미지가 아닙니다: ");
    push_str(&mut r, path);
    push_str(&mut r, ". 이 사실을 그대로 사용자에게 알리세요.");
    r
}

/// The refusal of an image edit on a file that does not decode (`reason` is the
/// decoder's).
pub fn undecodable_image_error(path: &str, reason: &str) -> (r: String)
    ensures
        r@ == "이 파일은 이미지가 아니라서 이미지 작업(회전/리사이즈/변환)을 할 수 없습니다: "@ + path@
            + " ("@ + reason@ + "). 이 사실을 그대로 사용자에게 알리세요."@,
{
    let mut r = to_string("이 파일은 이미지가 아니라서 이미지 작업(회전/리사이즈/변환)을 할 수 없습니다: ");
    push_str(&mut r, path);
    push_str(&mut r, " (");
    push_str(&mut r, reason);
    push_str(&mut r, "). 이 사실을 그대로 사용자에게 알리세요.");
    r
}

// ---------------------------------------------------------------------------
// image_transform
// ---------------------------------------------------------------------------

/// The rotation asked for: 90, 180 or 270 degrees clockwise; other angles are
/// refused.
pub open spec fn rotation_spec(rotate: Option<u64>) -> Result<Option<u32>, Seq<char>> {
    match rotate {
        None => Ok(None),
        Some(d) => if d == 90 || d == 180 || d == 270 {
            Ok(Some(d as u32))
        } else {
            Err("지원하지 않는 회전 각도: "@ + decimal(d as nat) + " (90/180/270만 가능)"@)
        },
    }
}

pub fn rotation_of(rotate: Option<u64>) -> (r: Result<Option<u32>, String>)
    ensures
        match r {
            Ok(o) => rotation_spec(rotate) == Ok::<Option<u32>, Seq<char>>(o),
            Err(e) => rotation_spec(rotate) == Err::<Option<u32>, Seq<char>>(e@),
        },
{
    match rotate {
        None => Ok(None),
        Some(d) => {
            if d == 90 {
                Ok(Some(90))
            } else if d == 180 {
                Ok(Some(180))
            } else if d == 270 {
                Ok(Some(270))
            } else {
                let mut r = to_string("지원하지 않는 회전 각도: ");
                let s = crate::text::u64_to_string(d);
                push_str(&mut r, s.as_str());
                push_str(&mut r, " (90/180/270만 가능)");
                Err(r)
            }
        },
    }
}

/// The box a resize fits the image into: the given sides (each cut to 32 bits as
/// the call's `as u32` does), an absent side unbounded; `None` when neither side
/// is given.
pub open spec fn resize_box_spec(width: Option<u64>, height: Option<u64>) -> Option<(u32, u32)> {
    if width is None && height is None {
        None
    } else {
        Some(
            (
                match width {
                    Some(w) => w as u32,
                    None => u32::MAX,
                },
                match height {
                    Some(h) => h as u32,
                    None => u32::MAX,
                },
            ),
        )
    }
}

pub fn resize_box(width: Option<u64>, height: Option<u64>) -> (r: Option<(u32, u32)>)
    ensures
        r == resize_box_spec(width, height),
{
    if width.is_none() && height.is_none() {
        return None;
    }
    let w: u32 = match width {
        Some(w) => #[verifier::truncate]
        (w as u32),
        None => u32::MAX,
    };
    let h: u32 = match height {
        Some(h) => #[verifier::truncate]
        (h as u32),
        None => u32::MAX,
    };
    Some((w, h))
}

/// Where an edited image is saved when no output is given: `<stem>_edited.<ext>`
/// beside the input, `<ext>` the requested format, else the input's extension,
/// else `png`. A path without a stem is refused.
pub open spec fn edited_path_spec(
    input: Seq<char>,
    output: Option<Seq<char>>,
    format: Option<Seq<char>>,
) -> Result<Seq<char>, Seq<char>> {
    match output {
        Some(o) => Ok(o),
        None => {
            let stem = stem_spec(file_name_spec(input));
            if stem.len() == 0 {
                Err("잘못된 경로"@)
            } else {
                let ext = match format {
                    Some(f) => f,
                    None => match extension_spec(file_name_spec(input)) {
                        Some(e) => e,
                        None => "png"@,
                    },
                };
                Ok(dir_part(input) + stem + "_edited."@ + ext)
            }
        },
    }
}

pub fn resolve_output_path(input: &str, output: Option<&str>, format: Option<&str>) -> (r: Result<
    String,
    String,
>)
    ensures
        match r {
            Ok(p) => edited_path_spec(input@, opt_str_view(output), opt_str_view(format)) == Ok::<
                Seq<char>,
                Seq<char>,
            >(p@),
            Err(e) => edited_path_spec(input@, opt_str_view(output), opt_str_view(format)) == Err::<
                Seq<char>,
                Seq<char>,
            >(e@),
        },
{
    if let Some(o) = output {
        return Ok(to_string(o));
    }
    let stem = crate::paths::file_stem_of(input);
    if crate::history::char_count(stem.as_str()) == 0 {
        return Err(to_string("잘못된 경로"));
    }
    let ext = match format {
        Some(f) => to_string(f),
        None => match crate::paths::extension_of(input) {
            Some(e) => e,
            None => to_string("png"),
        },
    };
    let mut name = stem;
    push_str(&mut name, "_edited.");
    push_str(&mut name, ext.as_str());
    let r = crate::paths::with_file_name(input, name.as_str());
    assert(r@ =~= dir_part(input@) + stem_spec(file_name_spec(input@)) + "_edited."@ + ext@);
    Ok(r)
}

/// A JPEG output (extension `jpg` or `jpeg`, case ignored) is saved without alpha.
pub open spec fn is_jpeg_spec(p: Seq<char>) -> bool {
    match extension_spec(file_name_spec(p)) {
        Some(e) => lower_text(e) == "jpg"@ || lower_text(e) == "jpeg"@,
        None => false,
    }
}

pub fn is_jpeg_path(p: &str) -> (r: bool)
    ensures
        r == is_jpeg_spec(p@),
{
    match crate::paths::extension_of(p) {
        Some(e) => {
            let l = crate::text::to_lowercase(e.as_str());
            crate::text::text_eq(l.as_str(), "jpg") || crate::text::text_eq(l.as_str(), "jpeg")
        },
        None => false,
    }
}

/// The edits of one `image_transform` call, in the order they are applied:
/// resize into `resize`, rotate clockwise by `rotate` degrees, grey; then the image
/// is saved at `output`, converted to RGB first when `drop_alpha`.
pub struct TransformPlan {
    pub resize: Option<(u32, u32)>,
    pub rotate: Option<u32>,
    pub grayscale: bool,
    pub output: String,
    pub drop_alpha: bool,
}

/// Where the edited image is written: the resolved output read against the
/// workspace; it must lie inside it.
pub open spec fn transform_output_spec(
    input: Seq<char>,
    output: Option<Seq<char>>,
    format: Option<Seq<char>>,
    ws: Seq<char>,
) -> Result<Seq<char>, Seq<char>> {
    match edited_path_spec(input, output, format) {
        Err(e) => Err(e),
        Ok(p) => {
            let o = if is_abs(p) {
                p
            } else {
                join_spec(ws, p)
            };
            match ensure_spec(o, ws) {
                Ok(_) => Ok(o),
                Err(e) => Err(path_error_text(e)),
            }
        },
    }
}

/// Plans an `image_transform` call on the image at `path`. A bad rotation is
/// refused first, then a bad or outside output.
pub fn plan_transform(
    path: &str,
    output_path: Option<&str>,
    format: Option<&str>,
    resize_width: Option<u64>,
    resize_height: Option<u64>,
    rotate: Option<u64>,
    grayscale: bool,
    ws: &str,
) -> (r: Result<TransformPlan, String>)
    ensures
        match r {
            Ok(p) => {
                &&& rotation_spec(rotate) == Ok::<Option<u32>, Seq<char>>(p.rotate)
                &&& p.resize == resize_box_spec(resize_width, resize_height)
                &&& p.grayscale == grayscale
                &&& transform_output_spec(path@, opt_str_view(output_path), opt_str_view(format), ws@)
                    == Ok::<Seq<char>, Seq<char>>(p.output@)
                &&& p.drop_alpha == is_jpeg_spec(p.output@)
            },
            Err(e) => match rotation_spec(rotate) {
                Err(re) => e@ == re,
                Ok(_) => transform_output_spec(
                    path@,
                    opt_str_view(output_path),
                    opt_str_view(format),
                    ws@,
                ) == Err::<Seq<char>, Seq<char>>(e@),
            },
        },
{
    let resize = resize_box(resize_width, resize_height);
    let rot = match rotation_of(rotate) {
        Ok(r) => r,
        Err(e) => return Err(e),
    };
    let resolved = match resolve_output_path(path, output_path, format) {
        Ok(p) => p,
        Err(e) => return Err(e),
    };
    let out = crate::paths::absorb_into_workspace(resolved.as_str(), ws);
    match crate::paths::ensure_in_workspace(out.as_str(), ws) {
        Ok(()) => {},
        Err(e) => return Err(e.message()),
    }
    let drop_alpha = is_jpeg_path(out.as_str());
    Ok(TransformPlan { resize, rotate: rot, grayscale, output: out, drop_alpha })
}

/// The edits done, as the report names them.
pub open spec fn ops_spec(plan: TransformPlan, ow: u32, oh: u32, nw: u32, nh: u32) -> Seq<
    Seq<char>,
> {
    let a: Seq<Seq<char>> = if plan.resize is Some {
        seq![
            "리사이즈 "@ + decimal(ow as nat) + "x"@ + decimal(oh as nat) + " -> "@ + decimal(
                nw as nat,
            ) + "x"@ + decimal(nh as nat),
        ]
    } else {
        Seq::empty()
    };
    let b = match plan.rotate {
        Some(d) => a.push("회전 "@ + decimal(d as nat) + "°"@),
        None => a,
    };
    let c = if plan.grayscale {
        b.push("흑백 변환"@)
    } else {
        b
    };
    if c.len() == 0 {
        seq!["포맷 변환"@]
    } else {
        c
    }
}

/// Items joined with `", "`.
pub open spec fn join_comma(ls: Seq<Seq<char>>) -> Seq<char>
    decreases ls.len(),
{
    if ls.len() == 0 {
        Seq::empty()
    } else if ls.len() == 1 {
        ls[0]
    } else {
        join_comma(ls.drop_last()) + ", "@ + ls.last()
    }
}

fn join_with_comma(items: &Vec<String>) -> (r: String)
    ensures
        r@ == join_comma(items@.map_values(|s: String| s@)),
{
    let ghost iv = items@.map_values(|s: String| s@);
    let mut r = String::new();
    let mut i: usize = 0;
    while i < items.len()
        invariant
            i <= items@.len(),
            iv == items@.map_values(|s: String| s@),
            r@ == join_comma(iv.take(i as int)),
        decreases items.len() - i,
    {
        if i > 0 {
            push_str(&mut r, ", ");
        }
        push_str(&mut r, items[i].as_str());
        proof {
            let t = iv.take(i + 1);
            assert(t.drop_last() =~= iv.take(i as int));
            if i == 0 {
                assert(iv.take(0) =~= Seq::<Seq<char>>::empty());
                assert(r@ =~= t[0]);
            } else {
                assert(r@ =~= join_comma(t));
            }
        }
        i += 1;
    }
    assert(iv.take(iv.len() as int) =~= iv);
    r
}

/// The report of an `image_transform` call on an image of `ow`×`oh` pixels that is
/// `nw`×`nh` after the resize.
pub fn transform_report(plan: &TransformPlan, ow: u32, oh: u32, nw: u32, nh: u32) -> (r: String)
    ensures
        r@ == join_comma(ops_spec(*plan, ow, oh, nw, nh)) + " 완료 -> "@ + plan.output@,
{
    let mut ops: Vec<String> = Vec::new();
    if plan.resize.is_some() {
        let mut s = to_string("리사이즈 ");
        let a = crate::text::u64_to_string(ow as u64);
        push_str(&mut s, a.as_str());
        push_str(&mut s, "x");
        let b = crate::text::u64_to_string(oh as u64);
        push_str(&mut s, b.as_str());
        push_str(&mut s, " -> ");
        let c = crate::text::u64_to_string(nw as u64);
        push_str(&mut s, c.as_str());
        push_str(&mut s, "x");
        let d = crate::text::u64_to_string(nh as u64);
        push_str(&mut s, d.as_str());
        ops.push(s);
    }
    if let Some(d) = plan.rotate {
        let mut s = to_string("회전 ");
        let a = crate::text::u64_to_string(d as u64);
        push_str(&mut s, a.as_str());
        push_str(&mut s, "°");
        ops.push(s);
    }
    if plan.grayscale {
        ops.push(to_string("흑백 변환"));
    }
    if ops.len() == 0 {
        ops.push(to_string("포맷 변환"));
    }
    assert(ops@.map_values(|s: String| s@) =~= ops_spec(*plan, ow, oh, nw, nh));
    let mut r = join_with_comma(&ops);
    push_str(&mut r, " 완료 -> ");
    push_str(&mut r, plan.output.as_str());
    r
}

// ---------------------------------------------------------------------------
// remove_background
// ---------------------------------------------------------------------------

pub open spec fn bg_input_exts() -> Seq<Seq<char>> {
    seq!["jpg"@, "jpeg"@, "png"@, "webp"@, "bmp"@, "tiff"@, "tif"@]
}

/// Where a background-free image goes and whether the call is accepted: the input
/// must have a supported extension (ASCII case ignored); the output is the given
/// path read against the workspace, or `<stem>_nobg.png` beside an input inside the
/// workspace, else at its root; it must end in `.png` and lie in the workspace.
pub open spec fn bg_output_spec(input: Seq<char>, output: Option<Seq<char>>, ws: Seq<char>) -> Result<
    Seq<char>,
    Seq<char>,
> {
    let ext = ascii_lower_seq(ext_or_empty(input));
    if !bg_input_exts().contains(ext) {
        Err("지원하지 않는 입력 형식 ."@ + ext + " (jpg, jpeg, png, webp, bmp, tiff 지원)"@)
    } else {
        let o: Result<Seq<char>, Seq<char>> = match output {
            Some(o) => Ok(
                if is_abs(o) {
                    o
                } else {
                    join_spec(ws, o)
                },
            ),
            None => {
                let stem = stem_spec(file_name_spec(input));
                if stem.len() == 0 {
                    Err("잘못된 경로"@)
                } else {
                    Ok(crate::paths::default_output_spec(input, stem + "_nobg.png"@, ws))
                }
            },
        };
        match o {
            Err(e) => Err(e),
            Ok(o) => if ascii_lower_seq(ext_or_empty(o)) != "png"@ {
                Err("출력은 .png 만 가능 (투명 배경 유지): "@ + o)
            } else {
                match ensure_spec(o, ws) {
                    Ok(_) => Ok(o),
                    Err(e) => Err(path_error_text(e)),
                }
            },
        }
    }
}

/// Checks a `remove_background` call on `input` and decides its output.
pub fn plan_remove_background(input: &str, output_path: Option<&str>, ws: &str) -> (r: Result<
    String,
    String,
>)
    ensures
        match r {
            Ok(o) => bg_output_spec(input@, opt_str_view(output_path), ws@) == Ok::<
                Seq<char>,
                Seq<char>,
            >(o@),
            Err(e) => bg_output_spec(input@, opt_str_view(output_path), ws@) == Err::<
                Seq<char>,
                Seq<char>,
            >(e@),
        },
{
    let e0 = ext_text(input);
    let ext = ascii_lower_str(e0.as_str());
    let exts: [&str; 7] = ["jpg", "jpeg", "png", "webp", "bmp", "tiff", "tif"];
    assert(crate::text::strs_view(exts@) =~= bg_input_exts());
    if !is_one_of(ext.as_str(), &exts) {
        let mut r = to_string("지원하지 않는 입력 형식 .");
        push_str(&mut r, ext.as_str());
        push_str(&mut r, " (jpg, jpeg, png, webp, bmp, tiff 지원)");
        return Err(r);
    }
    let out = match output_path {
        Some(o) => crate::paths::absorb_into_workspace(o, ws),
        None => {
            let stem = crate::paths::file_stem_of(input);
            if crate::history::char_count(stem.as_str()) == 0 {
                return Err(to_string("잘못된 경로"));
            }
            let mut name = stem;
            push_str(&mut name, "_nobg.png");
            crate::paths::default_output_in_workspace(input, name.as_str(), ws)
        },
    };
    let oe = ext_text(out.as_str());
    let ol = ascii_lower_str(oe.as_str());
    if !crate::text::text_eq(ol.as_str(), "png") {
        let mut r = to_string("출력은 .png 만 가능 (투명 배경 유지): ");
        push_str(&mut r, out.as_str());
        return Err(r);
    }
    match crate::paths::ensure_in_workspace(out.as_str(), ws) {
        Ok(()) => Ok(out),
        Err(e) => Err(e.message()),
    }
}

/// The refusal when the background model file is missing.
pub fn model_missing_error(model_path: &str) -> (r: String)
    ensures
        r@ == "배경제거 모델 없음: "@ + model_path@ + " (설정에서 경로 확인)"@,
{
    let mut r = to_string("배경제거 모델 없음: ");
    push_str(&mut r, model_path);
    push_str(&mut r, " (설정에서 경로 확인)");
    r
}

/// The report of a finished background removal.
pub fn remove_background_report(output: &str, width: u32, height: u32) -> (r: String)
    ensures
        r@ == "배경 제거 완료 -> "@ + output@ + " ("@ + decimal(width as nat) + "x"@ + decimal(
            height as nat,
        ) + " px, 투명 PNG)"@,
{
    let mut r = to_string("배경 제거 완료 -> ");
    push_str(&mut r, output);
    push_str(&mut r, " (");
    let a = crate::text::u64_to_string(width as u64);
    push_str(&mut r, a.as_str());
    push_str(&mut r, "x");
    let b = crate::text::u64_to_string(height as u64);
    push_str(&mut r, b.as_str());
    push_str(&mut r, " px, 투명 PNG)");
    r
}

} // verus!

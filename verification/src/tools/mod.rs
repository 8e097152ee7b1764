//! The decisions of the agent's tools. Each tool's file-system, image, archive or
//! document work is done by the caller; the modules here decide what is done, on
//! which paths, and what is reported back to the model. This module holds the
//! registry: which tools the model is offered, their JSON schemas, and lookup by
//! name.
use vstd::prelude::*;

use crate::text::{push_str, to_string};

pub mod notfound;
pub mod fs;
pub mod search;
pub mod archive;
pub mod image;
pub mod pdf;
pub mod capture;
pub mod index;
pub mod profile;
pub mod workspace;

verus! {

/// The tools there are.
#[derive(Clone, Copy, Debug, PartialEq, Eq, Structural)]
pub enum ToolKind {
    ListDir,
    ReadFile,
    WriteFile,
    MovePath,
    RenameFile,
    CopyPath,
    DeletePath,
    SearchFiles,
    ImageInfo,
    ImageTransform,
    RemoveBackground,
    PdfExtractText,
    ImagesToPdf,
    ScreenCapture,
    ZipCreate,
    ZipExtract,
    SetWorkspace,
    IndexFolder,
    UpdateProfile,
}

/// The name a tool is called by.
pub open spec fn tool_name(k: ToolKind) -> Seq<char> {
    match k {
        ToolKind::ListDir => "list_dir"@,
        ToolKind::ReadFile => "read_file"@,
        ToolKind::WriteFile => "write_file"@,
        ToolKind::MovePath => "move_path"@,
        ToolKind::RenameFile => "rename_file"@,
        ToolKind::CopyPath => "copy_path"@,
        ToolKind::DeletePath => "delete_path"@,
        ToolKind::SearchFiles => "search_files"@,
        ToolKind::ImageInfo => "image_info"@,
        ToolKind::ImageTransform => "image_transform"@,
        ToolKind::RemoveBackground => "remove_background"@,
        ToolKind::PdfExtractText => "pdf_extract_text"@,
        ToolKind::ImagesToPdf => "images_to_pdf"@,
        ToolKind::ScreenCapture => "screen_capture"@,
        ToolKind::ZipCreate => "zip_create"@,
        ToolKind::ZipExtract => "zip_extract"@,
        ToolKind::SetWorkspace => "set_workspace"@,
        ToolKind::IndexFolder => "index_folder"@,
        ToolKind::UpdateProfile => "update_profile"@,
    }
}

/// The description the model reads.
pub open spec fn tool_description(k: ToolKind) -> Seq<char> {
    match k {
        ToolKind::ListDir => "디렉토리의 파일/폴더 목록을 조회한다. 이름, 종류, 크기, 수정시각 포함."@,
        ToolKind::ReadFile => "텍스트 파일 내용을 읽는다 (최대 64KB)."@,
        ToolKind::WriteFile => "파일에 텍스트를 적어 저장한다 (적어줘/저장해줘/기록해줘/작성해줘/메모해줘). 사용자가 불러준 내용을 파일로 만들 때 사용. 기존 파일은 overwrite=true 일 때만 덮어쓴다."@,
        ToolKind::MovePath => "파일/폴더를 다른 폴더로 이동한다. 같은 폴더 안에서 이름만 바꾸려면 rename_file을 쓴다."@,
        ToolKind::RenameFile => "파일/폴더의 이름을 바꾼다 (같은 폴더 안에서). 새 이름에 확장자를 생략하면 원본 확장자가 유지된다. 다른 폴더로 옮기려면 move_path를 쓴다."@,
        ToolKind::CopyPath => "파일을 복사한다."@,
        ToolKind::DeletePath => "파일/폴더를 휴지통으로 보낸다 (영구 삭제 아님)."@,
        ToolKind::SearchFiles => "디렉토리(하위 포함)에서 이름 패턴으로 파일을 검색한다. 이미지만 찾으려면 images_only=true. 패턴은 글롭(*.png, 보고서*.docx) 또는 부분 문자열."@,
        ToolKind::ImageInfo => "이미지의 크기(가로x세로), 포맷, 파일 크기를 조회한다."@,
        ToolKind::ImageTransform => "이미지를 리사이즈/회전/그레이스케일/포맷변환한다. output_path 를 생략하면 원본 옆에 _edited 로 저장."@,
        ToolKind::RemoveBackground => "배경제거(누끼따기) 전용 도구. 이미지의 배경을 제거해 투명 배경 PNG 로 저장한다. output_path 생략 시 워크스페이스에 _nobg.png 로 저장(첨부 이미지처럼 입력이 워크스페이스 밖이어도 결과는 워크스페이스로 저장됨)."@,
        ToolKind::PdfExtractText => "PDF 파일에서 텍스트를 추출한다. PDF 요약/검색/질문답변 전에 반드시 먼저 호출한다."@,
        ToolKind::ImagesToPdf => "여러 이미지를 한 장씩 페이지로 묶어 PDF 파일을 만든다. 이미지 순서 = 페이지 순서."@,
        ToolKind::ScreenCapture => "현재 화면을 캡처해 PNG 파일로 저장한다. 결과로 저장 경로를 돌려준다."@,
        ToolKind::ZipCreate => "파일 또는 폴더(하위 포함)를 ZIP으로 압축한다. paths 는 쉼표로 여러 개 지정 가능."@,
        ToolKind::ZipExtract => "ZIP 파일의 압축을 푼다. 내용 확인만 하려면 list_only=true."@,
        ToolKind::SetWorkspace => "워크스페이스(작업 폴더)를 변경한다. 사용자가 작업 공간을 바꿔달라고 할 때만 사용. 폴더가 없으면 만든다."@,
        ToolKind::IndexFolder => "지정한 폴더의 문서를 로컬 검색 색인에 추가한다 (pdf/docx/txt/md/csv). 인덱싱 후 그 폴더 내용을 자연어로 검색할 수 있다. path 에 폴더 경로를 준다."@,
        ToolKind::UpdateProfile => "대화에서 알게 된 사용자 이름 또는 나(에이전트)의 이름을 저장한다. 이름을 새로 알게 되거나 바뀌면 즉시 호출."@,
    }
}

/// The JSON schema of a tool's arguments (compact JSON text).
pub open spec fn tool_parameters(k: ToolKind) -> Seq<char> {
    match k {
        ToolKind::ListDir => "{\"type\":\"object\",\"properties\":{\"path\":{\"type\":\"string\",\"description\":\"조회할 디렉토리 절대경로 (예: C:\\\\Users\\\\EST\\\\Downloads)\"}},\"required\":[\"path\"]}"@,
        ToolKind::ReadFile => "{\"type\":\"object\",\"properties\":{\"path\":{\"type\":\"string\",\"description\":\"파일 절대경로\"}},\"required\":[\"path\"]}"@,
        ToolKind::WriteFile => "{\"type\":\"object\",\"properties\":{\"path\":{\"type\":\"string\",\"description\":\"파일 절대경로\"},\"content\":{\"type\":\"string\",\"description\":\"쓸 내용\"},\"overwrite\":{\"type\":\"boolean\",\"description\":\"기존 파일 덮어쓰기 허용 (기본 false)\"}},\"required\":[\"path\",\"content\"]}"@,
        ToolKind::MovePath => "{\"type\":\"object\",\"properties\":{\"from\":{\"type\":\"string\",\"description\":\"원본 절대경로\"},\"to\":{\"type\":\"string\",\"description\":\"대상 절대경로\"}},\"required\":[\"from\",\"to\"]}"@,
        ToolKind::RenameFile => "{\"type\":\"object\",\"properties\":{\"path\":{\"type\":\"string\",\"description\":\"이름을 바꿀 파일/폴더의 절대경로\"},\"new_name\":{\"type\":\"string\",\"description\":\"새 이름 (확장자 포함, 경로 구분자 금지)\"}},\"required\":[\"path\",\"new_name\"]}"@,
        ToolKind::CopyPath => "{\"type\":\"object\",\"properties\":{\"from\":{\"type\":\"string\",\"description\":\"원본 파일 절대경로\"},\"to\":{\"type\":\"string\",\"description\":\"대상 절대경로\"}},\"required\":[\"from\",\"to\"]}"@,
        ToolKind::DeletePath => "{\"type\":\"object\",\"properties\":{\"path\":{\"type\":\"string\",\"description\":\"삭제할 절대경로\"}},\"required\":[\"path\"]}"@,
        ToolKind::SearchFiles => "{\"type\":\"object\",\"properties\":{\"root\":{\"type\":\"string\",\"description\":\"검색 시작 디렉토리 절대경로\"},\"pattern\":{\"type\":\"string\",\"description\":\"파일명 글롭 패턴 또는 부분 문자열 (예: *.png, 보고서)\"},\"images_only\":{\"type\":\"boolean\",\"description\":\"이미지 파일만 검색 (기본 false)\"},\"recursive\":{\"type\":\"boolean\",\"description\":\"하위 폴더 포함 (기본 true)\"},\"limit\":{\"type\":\"integer\",\"description\":\"최대 결과 수 (기본 50)\"}},\"required\":[\"root\",\"pattern\"]}"@,
        ToolKind::ImageInfo => "{\"type\":\"object\",\"properties\":{\"path\":{\"type\":\"string\",\"description\":\"이미지 절대경로\"}},\"required\":[\"path\"]}"@,
        ToolKind::ImageTransform => "{\"type\":\"object\",\"properties\":{\"path\":{\"type\":\"string\",\"description\":\"원본 이미지 절대경로\"},\"output_path\":{\"type\":\"string\",\"description\":\"저장할 경로 (생략 가능)\"},\"resize_width\":{\"type\":\"integer\",\"description\":\"목표 가로(너비) 픽셀, 비율 유지. 사용자가 '가로 N으로'라고 하면 이 인자를 쓴다\"},\"resize_height\":{\"type\":\"integer\",\"description\":\"목표 세로(높이) 픽셀, 비율 유지. 사용자가 '세로 N으로'라고 하면 이 인자를 쓴다\"},\"rotate\":{\"type\":\"integer\",\"enum\":[90,180,270],\"description\":\"시계방향 회전 각도\"},\"grayscale\":{\"type\":\"boolean\",\"description\":\"흑백 변환\"},\"format\":{\"type\":\"string\",\"enum\":[\"png\",\"jpeg\",\"webp\",\"bmp\"],\"description\":\"출력 포맷\"}},\"required\":[\"path\"]}"@,
        ToolKind::RemoveBackground => "{\"type\":\"object\",\"properties\":{\"path\":{\"type\":\"string\",\"description\":\"원본 이미지 절대경로\"},\"output_path\":{\"type\":\"string\",\"description\":\"저장할 .png 절대경로 (생략 가능)\"}},\"required\":[\"path\"]}"@,
        ToolKind::PdfExtractText => "{\"type\":\"object\",\"properties\":{\"path\":{\"type\":\"string\",\"description\":\"PDF 절대경로\"},\"max_chars\":{\"type\":\"integer\",\"description\":\"최대 추출 글자 수 (기본 20000)\"}},\"required\":[\"path\"]}"@,
        ToolKind::ImagesToPdf => "{\"type\":\"object\",\"properties\":{\"paths\":{\"type\":\"array\",\"items\":{\"type\":\"string\"},\"description\":\"이미지 절대경로 목록 (페이지 순서대로)\"},\"output_path\":{\"type\":\"string\",\"description\":\"생성할 .pdf 절대경로\"},\"page_size\":{\"type\":\"string\",\"enum\":[\"a4\",\"letter\",\"fit\"],\"description\":\"페이지 크기 (기본 a4, fit=이미지 크기 그대로)\"}},\"required\":[\"paths\",\"output_path\"]}"@,
        ToolKind::ScreenCapture => "{\"type\":\"object\",\"properties\":{\"monitor_index\":{\"type\":\"integer\",\"description\":\"캡처할 모니터 번호 (기본 0 = 주 모니터)\"},\"output_path\":{\"type\":\"string\",\"description\":\"저장 경로 (생략하면 사진 폴더에 자동 저장)\"}},\"required\":[]}"@,
        ToolKind::ZipCreate => "{\"type\":\"object\",\"properties\":{\"paths\":{\"type\":\"string\",\"description\":\"압축할 파일/폴더 절대경로 (여러 개는 쉼표 구분)\"},\"output_path\":{\"type\":\"string\",\"description\":\"생성할 zip 절대경로 (생략하면 첫 대상 옆에 .zip)\"}},\"required\":[\"paths\"]}"@,
        ToolKind::ZipExtract => "{\"type\":\"object\",\"properties\":{\"path\":{\"type\":\"string\",\"description\":\"zip 파일 절대경로\"},\"output_dir\":{\"type\":\"string\",\"description\":\"풀 디렉토리 (생략하면 zip 이름의 폴더)\"},\"list_only\":{\"type\":\"boolean\",\"description\":\"압축을 풀지 않고 목록만 조회\"}},\"required\":[\"path\"]}"@,
        ToolKind::SetWorkspace => "{\"type\":\"object\",\"properties\":{\"path\":{\"type\":\"string\",\"description\":\"새 워크스페이스 절대경로\"}},\"required\":[\"path\"]}"@,
        ToolKind::IndexFolder => "{\"type\":\"object\",\"properties\":{\"path\":{\"type\":\"string\",\"description\":\"인덱싱할 폴더 경로 (절대경로 권장)\"}},\"required\":[\"path\"]}"@,
        ToolKind::UpdateProfile => "{\"type\":\"object\",\"properties\":{\"user_name\":{\"type\":\"string\",\"description\":\"사용자의 이름/호칭\"},\"agent_name\":{\"type\":\"string\",\"description\":\"사용자가 지어준 나의 이름\"}},\"required\":[]}"@,
    }
}

impl ToolKind {
    pub fn name(&self) -> (r: &'static str)
        ensures
            r@ == tool_name(*self),
    {
        match self {
            ToolKind::ListDir => crate::tools::fs::ListDir.name(),
            ToolKind::ReadFile => crate::tools::fs::ReadFile.name(),
            ToolKind::WriteFile => crate::tools::fs::WriteFile.name(),
            ToolKind::MovePath => crate::tools::fs::MovePath.name(),
            ToolKind::RenameFile => crate::tools::fs::RenameFile.name(),
            ToolKind::CopyPath => crate::tools::fs::CopyPath.name(),
            ToolKind::DeletePath => crate::tools::fs::DeletePath.name(),
            ToolKind::SearchFiles => crate::tools::search::SearchFiles.name(),
            ToolKind::ImageInfo => crate::tools::image::ImageInfo.name(),
            ToolKind::ImageTransform => crate::tools::image::ImageTransform.name(),
            ToolKind::RemoveBackground => crate::tools::image::RemoveBackground.name(),
            ToolKind::PdfExtractText => crate::tools::pdf::PdfExtractText.name(),
            ToolKind::ImagesToPdf => crate::tools::pdf::ImagesToPdf.name(),
            ToolKind::ScreenCapture => crate::tools::capture::ScreenCapture.name(),
            ToolKind::ZipCreate => crate::tools::archive::ZipCreate.name(),
            ToolKind::ZipExtract => crate::tools::archive::ZipExtract.name(),
            ToolKind::SetWorkspace => crate::tools::workspace::SetWorkspace.name(),
            ToolKind::IndexFolder => crate::tools::index::IndexFolder.name(),
            ToolKind::UpdateProfile => crate::tools::profile::UpdateProfile.name(),
        }
    }

    pub fn description(&self) -> (r: &'static str)
        ensures
            r@ == tool_description(*self),
    {
        match self {
            ToolKind::ListDir => crate::tools::fs::ListDir.description(),
            ToolKind::ReadFile => crate::tools::fs::ReadFile.description(),
            ToolKind::WriteFile => crate::tools::fs::WriteFile.description(),
            ToolKind::MovePath => crate::tools::fs::MovePath.description(),
            ToolKind::RenameFile => crate::tools::fs::RenameFile.description(),
            ToolKind::CopyPath => crate::tools::fs::CopyPath.description(),
            ToolKind::DeletePath => crate::tools::fs::DeletePath.description(),
            ToolKind::SearchFiles => crate::tools::search::SearchFiles.description(),
            ToolKind::ImageInfo => crate::tools::image::ImageInfo.description(),
            ToolKind::ImageTransform => crate::tools::image::ImageTransform.description(),
            ToolKind::RemoveBackground => crate::tools::image::RemoveBackground.description(),
            ToolKind::PdfExtractText => crate::tools::pdf::PdfExtractText.description(),
            ToolKind::ImagesToPdf => crate::tools::pdf::ImagesToPdf.description(),
            ToolKind::ScreenCapture => crate::tools::capture::ScreenCapture.description(),
            ToolKind::ZipCreate => crate::tools::archive::ZipCreate.description(),
            ToolKind::ZipExtract => crate::tools::archive::ZipExtract.description(),
            ToolKind::SetWorkspace => crate::tools::workspace::SetWorkspace.description(),
            ToolKind::IndexFolder => crate::tools::index::IndexFolder.description(),
            ToolKind::UpdateProfile => crate::tools::profile::UpdateProfile.description(),
        }
    }

    /// The JSON schema of the tool's arguments.
    pub fn parameters(&self) -> (r: &'static str)
        ensures
            r@ == tool_parameters(*self),
    {
        match self {
            ToolKind::ListDir => "{\"type\":\"object\",\"properties\":{\"path\":{\"type\":\"string\",\"description\":\"조회할 디렉토리 절대경로 (예: C:\\\\Users\\\\EST\\\\Downloads)\"}},\"required\":[\"path\"]}",
            ToolKind::ReadFile => "{\"type\":\"object\",\"properties\":{\"path\":{\"type\":\"string\",\"description\":\"파일 절대경로\"}},\"required\":[\"path\"]}",
            ToolKind::WriteFile => "{\"type\":\"object\",\"properties\":{\"path\":{\"type\":\"string\",\"description\":\"파일 절대경로\"},\"content\":{\"type\":\"string\",\"description\":\"쓸 내용\"},\"overwrite\":{\"type\":\"boolean\",\"description\":\"기존 파일 덮어쓰기 허용 (기본 false)\"}},\"required\":[\"path\",\"content\"]}",
            ToolKind::MovePath => "{\"type\":\"object\",\"properties\":{\"from\":{\"type\":\"string\",\"description\":\"원본 절대경로\"},\"to\":{\"type\":\"string\",\"description\":\"대상 절대경로\"}},\"required\":[\"from\",\"to\"]}",
            ToolKind::RenameFile => "{\"type\":\"object\",\"properties\":{\"path\":{\"type\":\"string\",\"description\":\"이름을 바꿀 파일/폴더의 절대경로\"},\"new_name\":{\"type\":\"string\",\"description\":\"새 이름 (확장자 포함, 경로 구분자 금지)\"}},\"required\":[\"path\",\"new_name\"]}",
            ToolKind::CopyPath => "{\"type\":\"object\",\"properties\":{\"from\":{\"type\":\"string\",\"description\":\"원본 파일 절대경로\"},\"to\":{\"type\":\"string\",\"description\":\"대상 절대경로\"}},\"required\":[\"from\",\"to\"]}",
            ToolKind::DeletePath => "{\"type\":\"object\",\"properties\":{\"path\":{\"type\":\"string\",\"description\":\"삭제할 절대경로\"}},\"required\":[\"path\"]}",
            ToolKind::SearchFiles => "{\"type\":\"object\",\"properties\":{\"root\":{\"type\":\"string\",\"description\":\"검색 시작 디렉토리 절대경로\"},\"pattern\":{\"type\":\"string\",\"description\":\"파일명 글롭 패턴 또는 부분 문자열 (예: *.png, 보고서)\"},\"images_only\":{\"type\":\"boolean\",\"description\":\"이미지 파일만 검색 (기본 false)\"},\"recursive\":{\"type\":\"boolean\",\"description\":\"하위 폴더 포함 (기본 true)\"},\"limit\":{\"type\":\"integer\",\"description\":\"최대 결과 수 (기본 50)\"}},\"required\":[\"root\",\"pattern\"]}",
            ToolKind::ImageInfo => "{\"type\":\"object\",\"properties\":{\"path\":{\"type\":\"string\",\"description\":\"이미지 절대경로\"}},\"required\":[\"path\"]}",
            ToolKind::ImageTransform => "{\"type\":\"object\",\"properties\":{\"path\":{\"type\":\"string\",\"description\":\"원본 이미지 절대경로\"},\"output_path\":{\"type\":\"string\",\"description\":\"저장할 경로 (생략 가능)\"},\"resize_width\":{\"type\":\"integer\",\"description\":\"목표 가로(너비) 픽셀, 비율 유지. 사용자가 '가로 N으로'라고 하면 이 인자를 쓴다\"},\"resize_height\":{\"type\":\"integer\",\"description\":\"목표 세로(높이) 픽셀, 비율 유지. 사용자가 '세로 N으로'라고 하면 이 인자를 쓴다\"},\"rotate\":{\"type\":\"integer\",\"enum\":[90,180,270],\"description\":\"시계방향 회전 각도\"},\"grayscale\":{\"type\":\"boolean\",\"description\":\"흑백 변환\"},\"format\":{\"type\":\"string\",\"enum\":[\"png\",\"jpeg\",\"webp\",\"bmp\"],\"description\":\"출력 포맷\"}},\"required\":[\"path\"]}",
            ToolKind::RemoveBackground => "{\"type\":\"object\",\"properties\":{\"path\":{\"type\":\"string\",\"description\":\"원본 이미지 절대경로\"},\"output_path\":{\"type\":\"string\",\"description\":\"저장할 .png 절대경로 (생략 가능)\"}},\"required\":[\"path\"]}",
            ToolKind::PdfExtractText => "{\"type\":\"object\",\"properties\":{\"path\":{\"type\":\"string\",\"description\":\"PDF 절대경로\"},\"max_chars\":{\"type\":\"integer\",\"description\":\"최대 추출 글자 수 (기본 20000)\"}},\"required\":[\"path\"]}",
            ToolKind::ImagesToPdf => "{\"type\":\"object\",\"properties\":{\"paths\":{\"type\":\"array\",\"items\":{\"type\":\"string\"},\"description\":\"이미지 절대경로 목록 (페이지 순서대로)\"},\"output_path\":{\"type\":\"string\",\"description\":\"생성할 .pdf 절대경로\"},\"page_size\":{\"type\":\"string\",\"enum\":[\"a4\",\"letter\",\"fit\"],\"description\":\"페이지 크기 (기본 a4, fit=이미지 크기 그대로)\"}},\"required\":[\"paths\",\"output_path\"]}",
            ToolKind::ScreenCapture => "{\"type\":\"object\",\"properties\":{\"monitor_index\":{\"type\":\"integer\",\"description\":\"캡처할 모니터 번호 (기본 0 = 주 모니터)\"},\"output_path\":{\"type\":\"string\",\"description\":\"저장 경로 (생략하면 사진 폴더에 자동 저장)\"}},\"required\":[]}",
            ToolKind::ZipCreate => "{\"type\":\"object\",\"properties\":{\"paths\":{\"type\":\"string\",\"description\":\"압축할 파일/폴더 절대경로 (여러 개는 쉼표 구분)\"},\"output_path\":{\"type\":\"string\",\"description\":\"생성할 zip 절대경로 (생략하면 첫 대상 옆에 .zip)\"}},\"required\":[\"paths\"]}",
            ToolKind::ZipExtract => "{\"type\":\"object\",\"properties\":{\"path\":{\"type\":\"string\",\"description\":\"zip 파일 절대경로\"},\"output_dir\":{\"type\":\"string\",\"description\":\"풀 디렉토리 (생략하면 zip 이름의 폴더)\"},\"list_only\":{\"type\":\"boolean\",\"description\":\"압축을 풀지 않고 목록만 조회\"}},\"required\":[\"path\"]}",
            ToolKind::SetWorkspace => "{\"type\":\"object\",\"properties\":{\"path\":{\"type\":\"string\",\"description\":\"새 워크스페이스 절대경로\"}},\"required\":[\"path\"]}",
            ToolKind::IndexFolder => "{\"type\":\"object\",\"properties\":{\"path\":{\"type\":\"string\",\"description\":\"인덱싱할 폴더 경로 (절대경로 권장)\"}},\"required\":[\"path\"]}",
            ToolKind::UpdateProfile => "{\"type\":\"object\",\"properties\":{\"user_name\":{\"type\":\"string\",\"description\":\"사용자의 이름/호칭\"},\"agent_name\":{\"type\":\"string\",\"description\":\"사용자가 지어준 나의 이름\"}},\"required\":[]}",
        }
    }
}

/// The tools offered to the model, in the order they are listed.
pub open spec fn default_tools() -> Seq<ToolKind> {
    seq![ToolKind::ListDir, ToolKind::ReadFile, ToolKind::WriteFile, ToolKind::MovePath, ToolKind::RenameFile, ToolKind::CopyPath, ToolKind::DeletePath, ToolKind::SearchFiles, ToolKind::ImageInfo, ToolKind::ImageTransform, ToolKind::RemoveBackground, ToolKind::PdfExtractText, ToolKind::ImagesToPdf, ToolKind::ScreenCapture, ToolKind::ZipCreate, ToolKind::ZipExtract, ToolKind::SetWorkspace]
}

/// The tools an agent can call.
pub struct ToolRegistry {
    pub tools: Vec<ToolKind>,
}

pub open spec fn tool_names(ts: Seq<ToolKind>) -> Seq<Seq<char>> {
    ts.map_values(|k: ToolKind| tool_name(k))
}

/// The tools of `ts` whose names `keep` accepts, in order.
pub open spec fn kept(ts: Seq<ToolKind>, allowed: Option<Seq<Seq<char>>>, excluded: Seq<Seq<char>>) -> Seq<
    ToolKind,
> {
    ts.filter(
        |k: ToolKind|
            (match allowed {
                Some(a) => a.contains(tool_name(k)),
                None => true,
            }) && !excluded.contains(tool_name(k)),
    )
}

/// One entry of the `tools` array of a chat request.
pub open spec fn schema_text(k: ToolKind) -> Seq<char> {
    "{\"type\":\"function\",\"function\":{\"name\":"@ + crate::args::json_string_literal(tool_name(k))
        + ",\"description\":"@ + crate::args::json_string_literal(tool_description(k))
        + ",\"parameters\":"@ + tool_parameters(k) + "}}"@
}

pub open spec fn schemas_body(ts: Seq<ToolKind>) -> Seq<char>
    decreases ts.len(),
{
    if ts.len() == 0 {
        Seq::empty()
    } else if ts.len() == 1 {
        schema_text(ts[0])
    } else {
        schemas_body(ts.drop_last()) + ","@ + schema_text(ts.last())
    }
}

/// The JSON text of the `tools` array for the given tools.
pub open spec fn schemas_text(ts: Seq<ToolKind>) -> Seq<char> {
    "["@ + schemas_body(ts) + "]"@
}

fn name_in(name: &str, list: &[&str]) -> (r: bool)
    ensures
        r == crate::text::strs_view(list@).contains(name@),
{
    let ghost lv = crate::text::strs_view(list@);
    let mut i: usize = 0;
    while i < list.len()
        invariant
            i <= list@.len(),
            lv == crate::text::strs_view(list@),
            forall|j: int| 0 <= j < i ==> lv[j] != name@,
        decreases list.len() - i,
    {
        if crate::text::text_eq(name, list[i]) {
            assert(lv[i as int] == name@);
            return true;
        }
        i += 1;
    }
    assert(!lv.contains(name@));
    false
}

impl ToolRegistry {
    /// The registry of the tools offered by default.
    pub fn with_default_tools() -> (r: ToolRegistry)
        ensures
            r.tools@ == default_tools(),
    {
        let mut v: Vec<ToolKind> = Vec::new();
        v.push(ToolKind::ListDir);
        v.push(ToolKind::ReadFile);
        v.push(ToolKind::WriteFile);
        v.push(ToolKind::MovePath);
        v.push(ToolKind::RenameFile);
        v.push(ToolKind::CopyPath);
        v.push(ToolKind::DeletePath);
        v.push(ToolKind::SearchFiles);
        v.push(ToolKind::ImageInfo);
        v.push(ToolKind::ImageTransform);
        v.push(ToolKind::RemoveBackground);
        v.push(ToolKind::PdfExtractText);
        v.push(ToolKind::ImagesToPdf);
        v.push(ToolKind::ScreenCapture);
        v.push(ToolKind::ZipCreate);
        v.push(ToolKind::ZipExtract);
        v.push(ToolKind::SetWorkspace);
        assert(v@ =~= default_tools());
        ToolRegistry { tools: v }
    }

    /// The tools whose names are in `allowed` (all when `None`) and not in
    /// `excluded`, in registry order.
    pub fn select(&self, allowed: Option<&[&str]>, excluded: &[&str]) -> (r: Vec<ToolKind>)
        ensures
            r@ == kept(
                self.tools@,
                match allowed {
                    Some(a) => Some(crate::text::strs_view(a@)),
                    None => None,
                },
                crate::text::strs_view(excluded@),
            ),
    {
        let ghost av = match allowed {
            Some(a) => Some(crate::text::strs_view(a@)),
            None => None,
        };
        let ghost ev = crate::text::strs_view(excluded@);
        let ghost ts = self.tools@;
        let mut r: Vec<ToolKind> = Vec::new();
        let mut i: usize = 0;
        while i < self.tools.len()
            invariant
                i <= self.tools@.len(),
                ts == self.tools@,
                av == (match allowed {
                    Some(a) => Some(crate::text::strs_view(a@)),
                    None => None,
                }),
                ev == crate::text::strs_view(excluded@),
                r@ == kept(ts.take(i as int), av, ev),
            decreases self.tools.len() - i,
        {
            let k = self.tools[i];
            let n = k.name();
            let ok_allowed = match allowed {
                Some(a) => name_in(n, a),
                None => true,
            };
            let keep = ok_allowed && !name_in(n, excluded);
            proof {
                assert(ts.take(i + 1).drop_last() =~= ts.take(i as int));
                assert(ts.take(i + 1).last() == k);
                reveal(Seq::filter);
            }
            if keep {
                r.push(k);
            }
            i += 1;
        }
        assert(ts.take(ts.len() as int) =~= ts);
        r
    }

    /// The `tools` array (JSON text) for the given tools.
    pub fn schemas_of(tools: &Vec<ToolKind>) -> (r: String)
        ensures
            r@ == schemas_text(tools@),
    {
        let mut r = to_string("[");
        let ghost ts = tools@;
        let mut i: usize = 0;
        while i < tools.len()
            invariant
                i <= tools@.len(),
                ts == tools@,
                r@ == "["@ + schemas_body(ts.take(i as int)),
            decreases tools.len() - i,
        {
            if i > 0 {
                push_str(&mut r, ",");
            }
            let k = tools[i];
            push_str(&mut r, "{\"type\":\"function\",\"function\":{\"name\":");
            let n = crate::args::json_quote(k.name());
            push_str(&mut r, n.as_str());
            push_str(&mut r, ",\"description\":");
            let d = crate::args::json_quote(k.description());
            push_str(&mut r, d.as_str());
            push_str(&mut r, ",\"parameters\":");
            push_str(&mut r, k.parameters());
            push_str(&mut r, "}}");
            proof {
                let t = ts.take(i + 1);
                assert(t.drop_last() =~= ts.take(i as int));
                if i == 0 {
                    assert(r@ =~= "["@ + schema_text(t[0]));
                } else {
                    assert(r@ =~= "["@ + schemas_body(t));
                }
            }
            i += 1;
        }
        assert(ts.take(ts.len() as int) =~= ts);
        push_str(&mut r, "]");
        r
    }

    /// The `tools` array of every registered tool.
    pub fn schemas(&self) -> (r: String)
        ensures
            r@ == schemas_text(kept(self.tools@, None, Seq::empty())),
    {
        let none: [&str; 0] = [];
        let ts = self.select(None, &none);
        assert(crate::text::strs_view(none@) =~= Seq::<Seq<char>>::empty());
        Self::schemas_of(&ts)
    }

    /// The `tools` array without the tools named in `excluded` (a turn hides tools
    /// that compete with the one the user clearly asked for).
    pub fn schemas_excluding(&self, excluded: &[&str]) -> (r: String)
        ensures
            r@ == schemas_text(kept(self.tools@, None, crate::text::strs_view(excluded@))),
    {
        let ts = self.select(None, excluded);
        Self::schemas_of(&ts)
    }

    /// The `tools` array of the tools named in `allowed`, less those in `excluded`.
    pub fn schemas_only(&self, allowed: &[&str], excluded: &[&str]) -> (r: String)
        ensures
            r@ == schemas_text(
                kept(
                    self.tools@,
                    Some(crate::text::strs_view(allowed@)),
                    crate::text::strs_view(excluded@),
                ),
            ),
    {
        let ts = self.select(Some(allowed), excluded);
        Self::schemas_of(&ts)
    }

    /// The registered tool called `name`; an unknown name is refused.
    pub fn find(&self, name: &str) -> (r: Result<ToolKind, String>)
        ensures
            match r {
                Ok(k) => self.tools@.contains(k) && tool_name(k) == name@,
                Err(e) => !tool_names(self.tools@).contains(name@) && e@ == "알 수 없는 도구: "@ + name@,
            },
    {
        let ghost nv = tool_names(self.tools@);
        let mut i: usize = 0;
        while i < self.tools.len()
            invariant
                i <= self.tools@.len(),
                nv == tool_names(self.tools@),
                forall|j: int| 0 <= j < i ==> nv[j] != name@,
            decreases self.tools.len() - i,
        {
            let k = self.tools[i];
            if crate::text::text_eq(k.name(), name) {
                assert(self.tools@[i as int] == k);
                return Ok(k);
            }
            i += 1;
        }
        assert(!nv.contains(name@));
        let mut e = to_string("알 수 없는 도구: ");
        push_str(&mut e, name);
        Err(e)
    }
}

/// The refusal of a call that lacks a required argument.
pub fn missing_arg_error(key: &str) -> (r: String)
    ensures
        r@ == "필수 인자 누락: "@ + key@,
{
    let mut r = to_string("필수 인자 누락: ");
    push_str(&mut r, key);
    r
}

} // verus!

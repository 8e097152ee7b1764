//! File search by name: which pattern is matched, which entries count, when the
//! search stops, and its report. The directory walk is the caller's.
use vstd::prelude::*;

use crate::text::{chars_of, decimal, lower_text, push_str, to_lowercase, to_string};

verus! {

/// Results reported when the call gives no limit.
pub const DEFAULT_LIMIT: u64 = 50;

/// Depth of a recursive search.
pub const MAX_DEPTH: usize = 8;

/// Files looked at before a search gives up.
pub const MAX_SCANNED: u64 = 200000;

/// Searches files by name.
pub struct SearchFiles;

impl SearchFiles {
    pub fn name(&self) -> (r: &'static str)
        ensures
            r@ == "search_files"@,
    {
        "search_files"
    }

    pub fn description(&self) -> (r: &'static str)
        ensures
            r@ == crate::tools::tool_description(crate::tools::ToolKind::SearchFiles),
    {
        "디렉토리(하위 포함)에서 이름 패턴으로 파일을 검색한다. 이미지만 찾으려면 images_only=true. 패턴은 글롭(*.png, 보고서*.docx) 또는 부분 문자열."
    }
}

#[verifier::external_type_specification]
#[verifier::external_body]
pub struct ExGlobMatcher(globset::GlobMatcher);

/// Why `globset` refuses a glob, as its error prints (`None` when the
/// case-insensitive glob builds). globset's defaults (backslash as escape, path
/// separators) are those of the platform the crate is built for, so this and
/// [`glob_match`] are fixed per build, not across platforms.
pub uninterp spec fn glob_build_error(pattern: Seq<char>) -> Option<Seq<char>>;

/// Whether the case-insensitive glob `pattern` matches `name` (globset's matching).
pub uninterp spec fn glob_match(pattern: Seq<char>, name: Seq<char>) -> bool;

/// Builds a case-insensitive glob with `globset::GlobBuilder`; the error (printed)
/// is named [`glob_build_error`] of the pattern.
#[verifier::external_body]
fn build_matcher(pattern: &str) -> (r: Result<globset::GlobMatcher, String>)
    ensures
        match r {
            Ok(_) => glob_build_error(pattern@) is None,
            Err(e) => glob_build_error(pattern@) == Some(e@),
        },
{
    match globset::GlobBuilder::new(pattern).case_insensitive(true).build() {
        Ok(g) => Ok(g.compile_matcher()),
        Err(e) => Err(e.to_string()),
    }
}

/// A compiled name pattern.
pub struct NameMatcher {
    pattern: String,
    matcher: globset::GlobMatcher,
}

impl NameMatcher {
    /// The glob the matcher was built from.
    pub closed spec fn pattern(&self) -> Seq<char> {
        self.pattern@
    }

    /// Compiles the case-insensitive glob `pattern`.
    pub fn new(pattern: &str) -> (r: Result<NameMatcher, String>)
        ensures
            match r {
                Ok(m) => m.pattern() == pattern@ && glob_build_error(pattern@) is None,
                Err(e) => glob_build_error(pattern@) == Some(e@),
            },
    {
        match build_matcher(pattern) {
            Ok(m) => Ok(NameMatcher { pattern: to_string(pattern), matcher: m }),
            Err(e) => Err(e),
        }
    }

    /// Calls `GlobMatcher::is_match` on a file name; the answer is named
    /// [`glob_match`] of the pattern the matcher was built from and the name.
    #[verifier::external_body]
    fn is_match(&self, name: &str) -> (r: bool)
        ensures
            r == glob_match(self.pattern(), name@),
    {
        self.matcher.is_match(name)
    }
}

/// A pattern without glob characters matches as a substring.
pub open spec fn glob_of(pattern: Seq<char>) -> Seq<char> {
    if pattern.contains('*') || pattern.contains('?') || pattern.contains('[') {
        pattern
    } else {
        "*"@ + pattern + "*"@
    }
}

pub fn glob_pattern(pattern: &str) -> (r: String)
    ensures
        r@ == glob_of(pattern@),
{
    let v = chars_of(pattern);
    if crate::text::contains_char(v.as_slice(), '*') || crate::text::contains_char(v.as_slice(), '?')
        || crate::text::contains_char(v.as_slice(), '[') {
        return to_string(pattern);
    }
    let mut r = to_string("*");
    push_str(&mut r, pattern);
    push_str(&mut r, "*");
    r
}

/// How deep the walk goes.
pub fn search_depth(recursive: bool) -> (r: usize)
    ensures
        r == (if recursive {
            MAX_DEPTH
        } else {
            1
        }),
{
    if recursive {
        MAX_DEPTH
    } else {
        1
    }
}

/// ASCII case-insensitive equality.
pub open spec fn eq_ignore_ascii_case(a: Seq<char>, b: Seq<char>) -> bool {
    crate::text::ascii_lower_seq(a) == crate::text::ascii_lower_seq(b)
}

/// Folders the walk does not enter: hidden ones and system or dependency folders.
pub open spec fn hidden_or_system(name: Seq<char>) -> bool {
    (name.len() > 0 && name[0] == '.') || eq_ignore_ascii_case(name, "node_modules"@)
        || eq_ignore_ascii_case(name, "$RECYCLE.BIN"@) || eq_ignore_ascii_case(
        name,
        "System Volume Information"@,
    ) || eq_ignore_ascii_case(name, "AppData"@)
}

fn eq_ignore_case(a: &str, b: &str) -> (r: bool)
    ensures
        r == eq_ignore_ascii_case(a@, b@),
{
    let av = chars_of(a);
    let bv = chars_of(b);
    let la = crate::text::ascii_lowercase(av.as_slice());
    let lb = crate::text::ascii_lowercase(bv.as_slice());
    let sa = crate::text::string_of(la.as_slice());
    let sb = crate::text::string_of(lb.as_slice());
    crate::text::text_eq(sa.as_str(), sb.as_str())
}

/// Whether the walk skips the entry named `name`.
pub fn is_hidden_or_system(name: &str) -> (r: bool)
    ensures
        r == hidden_or_system(name@),
{
    let v = chars_of(name);
    (v.len() > 0 && v[0] == '.') || eq_ignore_case(name, "node_modules") || eq_ignore_case(
        name,
        "$RECYCLE.BIN",
    ) || eq_ignore_case(name, "System Volume Information") || eq_ignore_case(name, "AppData")
}

pub open spec fn image_exts() -> Seq<Seq<char>> {
    seq!["png"@, "jpg"@, "jpeg"@, "gif"@, "bmp"@, "webp"@, "tiff"@, "ico"@, "heic"@]
}

/// The file counts as an image: its extension, lower-cased, is an image one.
pub open spec fn is_image_ext(ext: Option<Seq<char>>) -> bool {
    match ext {
        Some(e) => image_exts().contains(lower_text(e)),
        None => false,
    }
}

fn image_ext(ext: &Option<String>) -> (r: bool)
    ensures
        r == is_image_ext(crate::models::opt_view(*ext)),
{
    let x = match ext {
        Some(x) => x,
        None => return false,
    };
    let e = to_lowercase(x.as_str());
    assert(crate::models::opt_view(*ext) == Some(x@));
    let exts: [&str; 9] = ["png", "jpg", "jpeg", "gif", "bmp", "webp", "tiff", "ico", "heic"];
    let ghost iv = image_exts();
    let mut i: usize = 0;
    while i < 9
        invariant
            i <= 9,
            iv == image_exts(),
            e@ == lower_text(x@),
            crate::models::opt_view(*ext) == Some(x@),
            forall|j: int| 0 <= j < 9 ==> (#[trigger] exts@[j])@ == iv[j],
            forall|j: int| 0 <= j < i ==> iv[j] != e@,
        decreases 9 - i,
    {
        if crate::text::text_eq(e.as_str(), exts[i]) {
            assert(exts@[i as int]@ == e@);
            assert(iv[i as int] == e@);
            assert(iv.contains(e@));
            return true;
        }
        i += 1;
    }
    assert(!iv.contains(e@));
    false
}

/// One file met by the walk.
pub struct FoundFile {
    pub path: String,
    /// Its file name.
    pub name: String,
    /// Its extension, if any.
    pub ext: Option<String>,
    pub size: u64,
    /// Modification time, formatted.
    pub modified: String,
}

pub open spec fn result_line(f: FoundFile) -> Seq<char> {
    f.path@ + "\t"@ + decimal(f.size as nat) + "\t"@ + f.modified@
}

/// A search in progress.
pub struct SearchState {
    pub root: String,
    pub pattern: String,
    pub images_only: bool,
    pub limit: u64,
    pub matcher: NameMatcher,
    pub results: Vec<String>,
    pub scanned: u64,
}

pub open spec fn lines_view(v: Seq<String>) -> Seq<Seq<char>> {
    v.map_values(|s: String| s@)
}

impl SearchState {
    /// A search of `root` for names matching `pattern` (a glob, or a substring when
    /// it has no glob character); fails when the glob does not build.
    pub fn start(root: &str, pattern: &str, images_only: bool, limit: Option<u64>) -> (r: Result<
        SearchState,
        String,
    >)
        ensures
            match r {
                Ok(s) => s.root@ == root@ && s.pattern@ == pattern@ && s.images_only == images_only
                    && s.limit == (match limit {
                    Some(l) => l,
                    None => DEFAULT_LIMIT,
                }) && s.matcher.pattern() == glob_of(pattern@) && s.results@.len() == 0
                    && s.scanned == 0,
                Err(e) => glob_build_error(glob_of(pattern@)) == Some(e@),
            },
    {
        let g = glob_pattern(pattern);
        let matcher = match NameMatcher::new(g.as_str()) {
            Ok(m) => m,
            Err(e) => return Err(e),
        };
        let l = match limit {
            Some(l) => l,
            None => DEFAULT_LIMIT,
        };
        Ok(
            SearchState {
                root: to_string(root),
                pattern: to_string(pattern),
                images_only,
                limit: l,
                matcher,
                results: Vec::new(),
                scanned: 0,
            },
        )
    }

    /// Takes the next file of the walk; `false` when the search is over (too many
    /// files looked at, or enough results).
    pub fn on_file(&mut self, f: &FoundFile) -> (go_on: bool)
        requires
            old(self).scanned < u64::MAX,
        ensures
            final(self).scanned == old(self).scanned + 1,
            final(self).root@ == old(self).root@,
            final(self).pattern@ == old(self).pattern@,
            final(self).images_only == old(self).images_only,
            final(self).limit == old(self).limit,
            final(self).matcher.pattern() == old(self).matcher.pattern(),
            ({
                let counted = old(self).scanned + 1 <= MAX_SCANNED && (!old(self).images_only
                    || is_image_ext(crate::models::opt_view(f.ext))) && glob_match(
                    old(self).matcher.pattern(),
                    f.name@,
                );
                &&& old(self).scanned + 1 > MAX_SCANNED ==> !go_on
                &&& lines_view(final(self).results@) == if counted {
                    lines_view(old(self).results@).push(result_line(*f))
                } else {
                    lines_view(old(self).results@)
                }
                &&& old(self).scanned + 1 <= MAX_SCANNED ==> go_on == !(counted
                    && final(self).results@.len() >= old(self).limit)
            }),
    {
        self.scanned = self.scanned + 1;
        if self.scanned > MAX_SCANNED {
            return false;
        }
        if self.images_only && !image_ext(&f.ext) {
            return true;
        }
        if !self.matcher.is_match(f.name.as_str()) {
            return true;
        }
        let mut line = crate::text::string_of(chars_of(f.path.as_str()).as_slice());
        push_str(&mut line, "\t");
        let s = crate::text::u64_to_string(f.size);
        push_str(&mut line, s.as_str());
        push_str(&mut line, "\t");
        push_str(&mut line, f.modified.as_str());
        let ghost before = lines_view(self.results@);
        self.results.push(line);
        assert(lines_view(self.results@) =~= before.push(result_line(*f)));
        !(self.results.len() as u64 >= self.limit)
    }

    /// The report of the search.
    pub fn report(&self) -> (r: String)
        ensures
            r@ == if self.results@.len() == 0 {
                "'"@ + self.pattern@ + "' 에 해당하는 파일 없음 (검색 위치: "@ + self.root@ + ")"@
            } else {
                decimal(self.results@.len() as nat) + "개 발견:\npath\tsize\tmodified\n"@
                    + crate::tools::fs::join_lines_nl(lines_view(self.results@))
            },
    {
        if self.results.len() == 0 {
            let mut r = to_string("'");
            push_str(&mut r, self.pattern.as_str());
            push_str(&mut r, "' 에 해당하는 파일 없음 (검색 위치: ");
            push_str(&mut r, self.root.as_str());
            push_str(&mut r, ")");
            return r;
        }
        let mut r = crate::text::u64_to_string(self.results.len() as u64);
        push_str(&mut r, "개 발견:\npath\tsize\tmodified\n");
        let ghost r0 = r@;
        let ghost lv = lines_view(self.results@);
        let mut i: usize = 0;
        while i < self.results.len()
            invariant
                i <= self.results@.len(),
                lv == lines_view(self.results@),
                r@ == r0 + crate::tools::fs::join_lines_nl(lv.take(i as int)),
            decreases self.results.len() - i,
        {
            if i > 0 {
                push_str(&mut r, "\n");
            }
            push_str(&mut r, self.results[i].as_str());
            proof {
                let t = lv.take(i + 1);
                assert(t.drop_last() =~= lv.take(i as int));
                assert(r@ =~= r0 + crate::tools::fs::join_lines_nl(t));
            }
            i += 1;
        }
        assert(lv.take(lv.len() as int) =~= lv);
        r
    }
}

} // verus!

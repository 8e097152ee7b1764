//! Command lines and outputs of the `localsearch-cli` sidecar (local document search).
use vstd::prelude::*;

use crate::text::{
    all_digits, chars_of, decimal, digits_value, find_chars, first_sub_at, has_sub,
    is_ascii_digit, parse_u64_digits, sub_at, to_string, u64_to_string,
};

verus! {

/// Start marker of the retrieved-documents block joined to the system prompt.
pub const RAG_MARKER: &'static str = "[참고 문서]";

/// How to start the sidecar. Paths are kept as text.
pub struct LocalSearchConfig {
    /// The `localsearch-cli` executable.
    pub binary: String,
    /// Parent directory of the embedding model.
    pub models_dir: String,
    /// Directory of the index database.
    pub db_dir: String,
    /// onnxruntime library handed over as `ORT_DYLIB_PATH` (system search when absent).
    pub ort_dylib: Option<String>,
    pub port: u16,
}

/// The `/api/status` answer: how many files are indexed.
pub struct StatusResponse {
    pub indexed_count: u64,
}

/// Counts reported by an `index` run.
#[derive(Debug, Clone, Copy, PartialEq, Eq, Structural)]
pub struct IndexSummary {
    pub indexed: u64,
    pub skipped: u64,
    pub errors: u64,
}

pub open spec fn strings_view(v: Seq<String>) -> Seq<Seq<char>> {
    v.map_values(|s: String| s@)
}

/// Arguments of `localsearch-cli serve`: the global directories come before the
/// subcommand.
pub open spec fn serve_args_spec(cfg: LocalSearchConfig) -> Seq<Seq<char>> {
    seq![
        "--models-dir"@,
        cfg.models_dir@,
        "--db-dir"@,
        cfg.db_dir@,
        "serve"@,
        "--port"@,
        decimal(cfg.port as nat),
    ]
}

/// Arguments of `localsearch-cli index <path>`.
pub open spec fn index_args_spec(cfg: LocalSearchConfig, path: Seq<char>) -> Seq<Seq<char>> {
    seq!["--models-dir"@, cfg.models_dir@, "--db-dir"@, cfg.db_dir@, "index"@, path]
}

/// The argument list of the search server.
pub fn serve_args(cfg: &LocalSearchConfig) -> (r: Vec<String>)
    ensures
        strings_view(r@) == serve_args_spec(*cfg),
{
    let mut r: Vec<String> = Vec::new();
    r.push(to_string("--models-dir"));
    r.push(cfg.models_dir.clone());
    r.push(to_string("--db-dir"));
    r.push(cfg.db_dir.clone());
    r.push(to_string("serve"));
    r.push(to_string("--port"));
    r.push(u64_to_string(cfg.port as u64));
    assert(strings_view(r@) =~= serve_args_spec(*cfg));
    r
}

/// The argument list of an indexing run over `path`.
pub fn index_args(cfg: &LocalSearchConfig, path: &str) -> (r: Vec<String>)
    ensures
        strings_view(r@) == index_args_spec(*cfg, path@),
{
    let mut r: Vec<String> = Vec::new();
    r.push(to_string("--models-dir"));
    r.push(cfg.models_dir.clone());
    r.push(to_string("--db-dir"));
    r.push(cfg.db_dir.clone());
    r.push(to_string("index"));
    r.push(to_string(path));
    assert(strings_view(r@) =~= index_args_spec(*cfg, path@));
    r
}

// ---------------------------------------------------------------------------
// Index summary
// ---------------------------------------------------------------------------

/// The first occurrence of `m` in `s`.
pub open spec fn first_pos(s: Seq<char>, m: Seq<char>) -> int {
    choose|p: int| first_sub_at(s, m, p)
}

/// The piece of `s` between the first and the second occurrence of `m`
/// (to the end when there is no second one): `s.split(m).nth(1)`.
pub open spec fn second_piece(s: Seq<char>, m: Seq<char>) -> Option<Seq<char>> {
    if !has_sub(s, m) {
        None
    } else {
        let rest = s.skip(first_pos(s, m) + m.len());
        if has_sub(rest, m) {
            Some(rest.take(first_pos(rest, m)))
        } else {
            Some(rest)
        }
    }
}

/// Index of the first ASCII digit of `s` at or after `i` (`s.len()` when none).
pub open spec fn first_digit_from(s: Seq<char>, i: int) -> int
    decreases s.len() - i,
{
    if i >= s.len() {
        s.len() as int
    } else if is_ascii_digit(s[i]) {
        i
    } else {
        first_digit_from(s, i + 1)
    }
}

/// End of the run of ASCII digits that starts at `i`.
pub open spec fn digit_run_end(s: Seq<char>, i: int) -> int
    decreases s.len() - i,
{
    if i >= s.len() {
        s.len() as int
    } else if !is_ascii_digit(s[i]) {
        i
    } else {
        digit_run_end(s, i + 1)
    }
}

/// The first unsigned number in `s`: its leading non-digits skipped, then the run
/// of digits, when there is one and it fits in `u64`.
pub open spec fn leading_uint(s: Seq<char>) -> Option<nat> {
    let a = first_digit_from(s, 0);
    let b = digit_run_end(s, a);
    if a >= b {
        None
    } else if digits_value(s.subrange(a, b)) > u64::MAX {
        None
    } else {
        Some(digits_value(s.subrange(a, b)))
    }
}

/// The first number after the marker `m` in `s`.
pub open spec fn uint_after_spec(s: Seq<char>, m: Seq<char>) -> Option<nat> {
    match second_piece(s, m) {
        Some(piece) => leading_uint(piece),
        None => None,
    }
}

pub proof fn lemma_first_sub_unique(s: Seq<char>, m: Seq<char>, p: int)
    requires
        first_sub_at(s, m, p),
    ensures
        first_pos(s, m) == p,
{
    let q = first_pos(s, m);
    assert(first_sub_at(s, m, q));
    if q < p {
        assert(!sub_at(s, m, q));
    } else if p < q {
        assert(!sub_at(s, m, p));
    }
}

proof fn lemma_digit_bounds(s: Seq<char>, i: int)
    requires
        0 <= i,
    ensures
        i <= first_digit_from(s, i) || i > s.len(),
        first_digit_from(s, i) <= s.len() || i > s.len(),
        first_digit_from(s, i) <= digit_run_end(s, first_digit_from(s, i)) <= s.len() || i
            > s.len(),
    decreases s.len() - i,
{
    if i < s.len() && !is_ascii_digit(s[i]) {
        lemma_digit_bounds(s, i + 1);
    }
    if i <= s.len() {
        lemma_run_bounds(s, first_digit_from(s, i));
    }
}

proof fn lemma_run_bounds(s: Seq<char>, i: int)
    requires
        0 <= i <= s.len(),
    ensures
        i <= digit_run_end(s, i) <= s.len(),
        forall|j: int| i <= j < digit_run_end(s, i) ==> is_ascii_digit(#[trigger] s[j]),
    decreases s.len() - i,
{
    if i < s.len() && is_ascii_digit(s[i]) {
        lemma_run_bounds(s, i + 1);
    }
}

/// The first number in `s`, as `leading_uint` states it.
fn leading_uint_of(s: &[char]) -> (r: Option<u64>)
    ensures
        match r {
            Some(v) => leading_uint(s@) == Some(v as nat),
            None => leading_uint(s@) is None,
        },
{
    let mut a: usize = 0;
    while a < s.len() && !('0' <= s[a] && s[a] <= '9')
        invariant
            a <= s@.len(),
            first_digit_from(s@, 0) == first_digit_from(s@, a as int),
        decreases s.len() - a,
    {
        a += 1;
    }
    let mut b: usize = a;
    while b < s.len() && ('0' <= s[b] && s[b] <= '9')
        invariant
            a <= b <= s@.len(),
            digit_run_end(s@, a as int) == digit_run_end(s@, b as int),
            forall|j: int| a <= j < b ==> is_ascii_digit(#[trigger] s@[j]),
        decreases s.len() - b,
    {
        b += 1;
    }
    let mut run: Vec<char> = Vec::new();
    let mut i = a;
    while i < b
        invariant
            a <= i <= b <= s@.len(),
            run@ =~= s@.subrange(a as int, i as int),
        decreases b - i,
    {
        run.push(s[i]);
        i += 1;
    }
    assert(all_digits(run@));
    if a >= b {
        return None;
    }
    parse_u64_digits(run.as_slice())
}

/// The first number after `marker` in `s` (up to the next `marker`).
pub fn first_uint_after(s: &[char], marker: &str) -> (r: Option<u64>)
    ensures
        match r {
            Some(v) => uint_after_spec(s@, marker@) == Some(v as nat),
            None => uint_after_spec(s@, marker@) is None,
        },
{
    let m = chars_of(marker);
    let p = match find_chars(s, m.as_slice()) {
        Some(p) => p,
        None => return None,
    };
    proof {
        lemma_first_sub_unique(s@, m@, p as int);
    }
    let sl = s.len();
    assert(p + m@.len() <= s@.len());
    let start = p + m.len();
    let mut rest: Vec<char> = Vec::new();
    let mut i = start;
    while i < s.len()
        invariant
            start <= i <= s@.len(),
            start <= s@.len(),
            rest@ =~= s@.subrange(start as int, i as int),
        decreases s.len() - i,
    {
        rest.push(s[i]);
        i += 1;
    }
    assert(rest@ =~= s@.skip(start as int));
    match find_chars(rest.as_slice(), m.as_slice()) {
        Some(q) => {
            proof {
                lemma_first_sub_unique(rest@, m@, q as int);
            }
            let mut piece: Vec<char> = Vec::new();
            let mut j: usize = 0;
            while j < q
                invariant
                    j <= q <= rest@.len(),
                    piece@ =~= rest@.take(j as int),
                decreases q - j,
            {
                piece.push(rest[j]);
                j += 1;
            }
            leading_uint_of(piece.as_slice())
        },
        None => leading_uint_of(rest.as_slice()),
    }
}

// ---------------------------------------------------------------------------
// Lines
// ---------------------------------------------------------------------------

/// A finished line loses one trailing `\r` (a `\r\n` ending).
pub open spec fn strip_cr(l: Seq<char>) -> Seq<char> {
    if l.len() > 0 && l.last() == '\r' {
        l.drop_last()
    } else {
        l
    }
}

pub open spec fn lines_state(s: Seq<char>) -> (Seq<Seq<char>>, Seq<char>)
    decreases s.len(),
{
    if s.len() == 0 {
        (Seq::empty(), Seq::empty())
    } else {
        let (done, cur) = lines_state(s.drop_last());
        if s.last() == '\n' {
            (done.push(strip_cr(cur)), Seq::empty())
        } else {
            (done, cur.push(s.last()))
        }
    }
}

/// `str::lines`: pieces between `\n`, a `\r\n` ending counted as one, no empty
/// piece after a final line ending.
pub open spec fn lines_spec(s: Seq<char>) -> Seq<Seq<char>> {
    let (done, cur) = lines_state(s);
    if cur.len() == 0 {
        done
    } else {
        done.push(cur)
    }
}

/// The last line of `ls` that contains `m`.
pub open spec fn last_line_with(ls: Seq<Seq<char>>, m: Seq<char>) -> Option<Seq<char>>
    decreases ls.len(),
{
    if ls.len() == 0 {
        None
    } else if has_sub(ls.last(), m) {
        Some(ls.last())
    } else {
        last_line_with(ls.drop_last(), m)
    }
}

/// The summary that the line "인덱싱 완료: N chunks, skipped=A, errors=B" of an
/// `index` run's output gives (its last such line).
pub open spec fn index_summary_spec(out: Seq<char>) -> Option<(nat, nat, nat)> {
    match last_line_with(lines_spec(out), "인덱싱 완료:"@) {
        None => None,
        Some(line) => match (
            uint_after_spec(line, "완료:"@),
            uint_after_spec(line, "skipped="@),
            uint_after_spec(line, "errors="@),
        ) {
            (Some(a), Some(b), Some(c)) => Some((a, b, c)),
            _ => None,
        },
    }
}

/// The lines of a text.
pub fn split_lines(s: &[char]) -> (r: Vec<Vec<char>>)
    ensures
        r@.map_values(|l: Vec<char>| l@) == lines_spec(s@),
{
    let mut done: Vec<Vec<char>> = Vec::new();
    let mut cur: Vec<char> = Vec::new();
    let mut i: usize = 0;
    while i < s.len()
        invariant
            i <= s@.len(),
            (done@.map_values(|l: Vec<char>| l@), cur@) == lines_state(s@.take(i as int)),
        decreases s.len() - i,
    {
        assert(s@.take(i + 1).drop_last() =~= s@.take(i as int));
        if s[i] == '\n' {
            let ghost d0 = done@.map_values(|l: Vec<char>| l@);
            if cur.len() > 0 && cur[cur.len() - 1] == '\r' {
                cur.pop();
            }
            done.push(cur);
            assert(done@.map_values(|l: Vec<char>| l@) =~= d0.push(done@.last()@));
            cur = Vec::new();
        } else {
            cur.push(s[i]);
        }
        i += 1;
    }
    assert(s@.take(s@.len() as int) =~= s@);
    if cur.len() > 0 {
        let ghost d0 = done@.map_values(|l: Vec<char>| l@);
        done.push(cur);
        assert(done@.map_values(|l: Vec<char>| l@) =~= d0.push(done@.last()@));
    }
    done
}

/// Parses the summary line of an `index` run.
pub fn parse_index_summary(stdout: &str) -> (r: Option<IndexSummary>)
    ensures
        match r {
            Some(s) => index_summary_spec(stdout@) == Some(
                (s.indexed as nat, s.skipped as nat, s.errors as nat),
            ),
            None => index_summary_spec(stdout@) is None,
        },
{
    let text = chars_of(stdout);
    let lines = split_lines(text.as_slice());
    let ghost lv = lines@.map_values(|l: Vec<char>| l@);
    assert(lv =~= lines_spec(stdout@));
    let marker = chars_of("인덱싱 완료:");
    let mut k = lines.len();
    assert(lv.take(k as int) =~= lv);
    while k > 0
        invariant
            k <= lines@.len(),
            lv == lines@.map_values(|l: Vec<char>| l@),
            lv == lines_spec(stdout@),
            marker@ == "인덱싱 완료:"@,
            last_line_with(lv, marker@) == last_line_with(lv.take(k as int), marker@),
        decreases k,
    {
        assert(lv.take(k as int).last() == lines@[k - 1]@);
        assert(lv.take(k as int).drop_last() =~= lv.take(k - 1));
        match find_chars(lines[k - 1].as_slice(), marker.as_slice()) {
            Some(pp) => {
                assert(sub_at(lines@[k - 1]@, marker@, pp as int));
                assert(has_sub(lv.take(k as int).last(), marker@));
                let line = lines[k - 1].as_slice();
                let a = first_uint_after(line, "완료:");
                let b = first_uint_after(line, "skipped=");
                let c = first_uint_after(line, "errors=");
                return match (a, b, c) {
                    (Some(a), Some(b), Some(c)) => Some(
                        IndexSummary { indexed: a, skipped: b, errors: c },
                    ),
                    _ => None,
                };
            },
            None => {},
        }
        k -= 1;
    }
    assert(lv.take(0) =~= Seq::<Seq<char>>::empty());
    None
}

} // verus!

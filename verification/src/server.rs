//! The local model server: which vision projector goes with a model, the command
//! line it is started with, its address, and the wait for it to become healthy.
//! Spawning the process and probing it over HTTP is the caller's.
use vstd::prelude::*;

use crate::paths::file_name_spec;
use crate::text::{
    decimal, ends_with, lower_text, push_str, starts_with, text_eq, to_string, trim,
};

verus! {

/// Health probes before the server is given up (one a second).
pub const MAX_HEALTH_PROBES: u32 = 120;

/// Decimal rendering of a signed number.
pub open spec fn signed_decimal(n: int) -> Seq<char> {
    if n < 0 {
        "-"@ + decimal((-n) as nat)
    } else {
        decimal(n as nat)
    }
}

/// `i32::to_string`.
pub fn i32_to_string(n: i32) -> (r: String)
    ensures
        r@ == signed_decimal(n as int),
{
    if n < 0 {
        let m: u64 = (0i64 - n as i64) as u64;
        let mut r = to_string("-");
        let d = crate::text::u64_to_string(m);
        push_str(&mut r, d.as_str());
        r
    } else {
        crate::text::u64_to_string(n as u64)
    }
}

/// A vision projector file: its lower-cased name starts with `mmproj` and ends
/// with `.gguf`.
pub open spec fn is_mmproj_name(name: Seq<char>) -> bool {
    starts_with(lower_text(name), "mmproj"@) && ends_with(lower_text(name), ".gguf"@)
}

pub fn is_mmproj_file(path: &str) -> (r: bool)
    ensures
        r == is_mmproj_name(file_name_spec(path@)),
{
    let n = crate::paths::file_name_of(path);
    let l = crate::text::to_lowercase(n.as_str());
    let v = crate::text::chars_of(l.as_str());
    let a = crate::text::chars_of("mmproj");
    let b = crate::text::chars_of(".gguf");
    crate::text::starts_with_chars(v.as_slice(), a.as_slice()) && crate::text::ends_with_chars(
        v.as_slice(),
        b.as_slice(),
    )
}

/// The first sibling file that is a vision projector.
pub open spec fn first_mmproj(files: Seq<Seq<char>>) -> Option<Seq<char>>
    decreases files.len(),
{
    if files.len() == 0 {
        None
    } else if is_mmproj_name(file_name_spec(files[0])) {
        Some(files[0])
    } else {
        first_mmproj(files.drop_first())
    }
}

/// The projector used with a model: the configured one when it is set (not blank),
/// and only if that file exists; otherwise the first projector among the files
/// beside the model (`sibling_files`, in the order the folder lists them).
pub open spec fn mmproj_spec(
    configured: Seq<char>,
    configured_exists: bool,
    sibling_files: Seq<Seq<char>>,
) -> Option<Seq<char>> {
    if trim(configured).len() > 0 {
        if configured_exists {
            Some(configured)
        } else {
            None
        }
    } else {
        first_mmproj(sibling_files)
    }
}

pub fn resolve_mmproj(configured: &str, configured_exists: bool, sibling_files: &Vec<String>) -> (r:
    Option<String>)
    ensures
        crate::models::opt_view(r) == mmproj_spec(
            configured@,
            configured_exists,
            sibling_files@.map_values(|s: String| s@),
        ),
{
    let t = crate::text::trim_str(configured);
    if crate::history::char_count(t.as_str()) > 0 {
        if configured_exists {
            return Some(to_string(configured));
        }
        return None;
    }
    let ghost fv = sibling_files@.map_values(|s: String| s@);
    let mut i: usize = 0;
    assert(fv.skip(0) =~= fv);
    while i < sibling_files.len()
        invariant
            i <= sibling_files@.len(),
            trim(configured@).len() == 0,
            fv == sibling_files@.map_values(|s: String| s@),
            first_mmproj(fv) == first_mmproj(fv.skip(i as int)),
        decreases sibling_files.len() - i,
    {
        assert(fv.skip(i as int)[0] == fv[i as int]);
        assert(fv.skip(i as int).drop_first() =~= fv.skip(i + 1));
        if is_mmproj_file(sibling_files[i].as_str()) {
            assert(first_mmproj(fv.skip(i as int)) == Some(fv[i as int]));
            return Some(to_string(sibling_files[i].as_str()));
        }
        i += 1;
    }
    assert(fv.skip(i as int).len() == 0);
    None
}

/// The settings the server is started with.
pub struct ServerSettings {
    pub server_exe: String,
    pub model_path: String,
    pub port: u16,
    pub n_gpu_layers: i32,
    pub ctx_size: u32,
    pub device: String,
    pub reasoning_budget: i32,
    /// The configured vision projector (blank: paired automatically).
    pub mmproj_path: String,
}

/// A change of any setting the server is started with asks for a restart.
pub open spec fn restart_needed_spec(old: ServerSettings, new: ServerSettings) -> bool {
    old.model_path@ != new.model_path@ || old.server_exe@ != new.server_exe@ || old.port
        != new.port || old.device@ != new.device@ || old.n_gpu_layers != new.n_gpu_layers
        || old.ctx_size != new.ctx_size || old.reasoning_budget != new.reasoning_budget
        || old.mmproj_path@ != new.mmproj_path@
}

/// A settings change restarts the server exactly when a setting the server runs
/// with changed: another model, server program, port, device, number of GPU
/// layers, context size, reasoning budget or vision projector each asks for a
/// restart on its own, and settings equal in all of them never do.
pub proof fn law_restart_on_server_setting_change(old: ServerSettings, new: ServerSettings)
    ensures
        old.model_path@ != new.model_path@ ==> restart_needed_spec(old, new),
        old.server_exe@ != new.server_exe@ ==> restart_needed_spec(old, new),
        old.port != new.port ==> restart_needed_spec(old, new),
        old.device@ != new.device@ ==> restart_needed_spec(old, new),
        old.n_gpu_layers != new.n_gpu_layers ==> restart_needed_spec(old, new),
        old.ctx_size != new.ctx_size ==> restart_needed_spec(old, new),
        old.reasoning_budget != new.reasoning_budget ==> restart_needed_spec(old, new),
        old.mmproj_path@ != new.mmproj_path@ ==> restart_needed_spec(old, new),
        (old.model_path@ == new.model_path@ && old.server_exe@ == new.server_exe@ && old.port
            == new.port && old.device@ == new.device@ && old.n_gpu_layers == new.n_gpu_layers
            && old.ctx_size == new.ctx_size && old.reasoning_budget == new.reasoning_budget
            && old.mmproj_path@ == new.mmproj_path@) ==> !restart_needed_spec(old, new),
{
}

pub fn restart_needed(old: &ServerSettings, new: &ServerSettings) -> (r: bool)
    ensures
        r == restart_needed_spec(*old, *new),
{
    !text_eq(old.model_path.as_str(), new.model_path.as_str()) || !text_eq(
        old.server_exe.as_str(),
        new.server_exe.as_str(),
    ) || old.port != new.port || !text_eq(old.device.as_str(), new.device.as_str())
        || old.n_gpu_layers != new.n_gpu_layers || old.ctx_size != new.ctx_size
        || old.reasoning_budget != new.reasoning_budget || !text_eq(
        old.mmproj_path.as_str(),
        new.mmproj_path.as_str(),
    )
}

pub open spec fn strs(v: Seq<String>) -> Seq<Seq<char>> {
    v.map_values(|s: String| s@)
}

/// The message that ends reasoning when its budget is spent.
pub open spec fn budget_message() -> Seq<char> {
    "생각할 시간이 끝났다. 지금 바로 도구를 호출하거나 한국어로 최종 답변한다."@
}

/// The server's arguments: model, port, local host, GPU layers, context size and
/// the chat template, without the web UI; a projector with its per-image token
/// floor when there is one; a device only when one is set (an empty device makes
/// the server exit); reasoning off at budget 0, else the budget and the message
/// that ends it.
pub open spec fn server_args_spec(s: ServerSettings, mmproj: Option<Seq<char>>) -> Seq<Seq<char>> {
    let base = seq![
        "-m"@,
        s.model_path@,
        "--port"@,
        decimal(s.port as nat),
        "--host"@,
        "127.0.0.1"@,
        "-ngl"@,
        signed_decimal(s.n_gpu_layers as int),
        "-c"@,
        decimal(s.ctx_size as nat),
        "--jinja"@,
        "--no-webui"@,
    ];
    let a = match mmproj {
        Some(p) => base + seq!["--mmproj"@, p, "--image-min-tokens"@, "1024"@],
        None => base,
    };
    let b = if trim(s.device@).len() > 0 {
        a + seq!["--device"@, s.device@]
    } else {
        a
    };
    if s.reasoning_budget == 0 {
        b + seq!["--reasoning"@, "off"@]
    } else {
        b + seq![
            "--reasoning-budget"@,
            signed_decimal(s.reasoning_budget as int),
            "--reasoning-budget-message"@,
            budget_message(),
        ]
    }
}

fn push_arg(v: &mut Vec<String>, a: &str)
    ensures
        strs(final(v)@) == strs(old(v)@).push(a@),
{
    let ghost v0 = strs(v@);
    v.push(to_string(a));
    assert(strs(v@) =~= v0.push(a@));
}

pub fn server_args(s: &ServerSettings, mmproj: Option<&str>) -> (r: Vec<String>)
    ensures
        strs(r@) == server_args_spec(*s, crate::tools::image::opt_str_view(mmproj)),
{
    let mut v: Vec<String> = Vec::new();
    push_arg(&mut v, "-m");
    push_arg(&mut v, s.model_path.as_str());
    push_arg(&mut v, "--port");
    let port = crate::text::u64_to_string(s.port as u64);
    push_arg(&mut v, port.as_str());
    push_arg(&mut v, "--host");
    push_arg(&mut v, "127.0.0.1");
    push_arg(&mut v, "-ngl");
    let ngl = i32_to_string(s.n_gpu_layers);
    push_arg(&mut v, ngl.as_str());
    push_arg(&mut v, "-c");
    let c = crate::text::u64_to_string(s.ctx_size as u64);
    push_arg(&mut v, c.as_str());
    push_arg(&mut v, "--jinja");
    push_arg(&mut v, "--no-webui");
    let ghost base = strs(v@);
    if let Some(p) = mmproj {
        push_arg(&mut v, "--mmproj");
        push_arg(&mut v, p);
        push_arg(&mut v, "--image-min-tokens");
        push_arg(&mut v, "1024");
    }
    let ghost a = strs(v@);
    let dev = crate::text::trim_str(s.device.as_str());
    if crate::history::char_count(dev.as_str()) > 0 {
        push_arg(&mut v, "--device");
        push_arg(&mut v, s.device.as_str());
    }
    let ghost b = strs(v@);
    if s.reasoning_budget == 0 {
        push_arg(&mut v, "--reasoning");
        push_arg(&mut v, "off");
    } else {
        push_arg(&mut v, "--reasoning-budget");
        let rb = i32_to_string(s.reasoning_budget);
        push_arg(&mut v, rb.as_str());
        push_arg(&mut v, "--reasoning-budget-message");
        push_arg(&mut v, "생각할 시간이 끝났다. 지금 바로 도구를 호출하거나 한국어로 최종 답변한다.");
    }
    assert(strs(v@) =~= server_args_spec(*s, crate::tools::image::opt_str_view(mmproj)));
    v
}

/// The refusal when a sidecar program (`llama-server`, `localsearch-cli`) is
/// missing.
pub fn missing_program_error(program: &str, exe: &str) -> (r: String)
    ensures
        r@ == program@ + " 실행 파일이 없습니다: "@ + exe@,
{
    let mut r = to_string(program);
    push_str(&mut r, " 실행 파일이 없습니다: ");
    push_str(&mut r, exe);
    r
}

/// The refusal when the model file is missing.
pub fn missing_model_error(model: &str) -> (r: String)
    ensures
        r@ == "모델 파일이 없습니다: "@ + model@,
{
    let mut r = to_string("모델 파일이 없습니다: ");
    push_str(&mut r, model);
    r
}

/// The server's address.
pub fn base_url(port: u16) -> (r: String)
    ensures
        r@ == "http://127.0.0.1:"@ + decimal(port as nat),
{
    let mut r = to_string("http://127.0.0.1:");
    let p = crate::text::u64_to_string(port as u64);
    push_str(&mut r, p.as_str());
    r
}

/// The health endpoint of a server at `base`.
pub fn health_url(base: &str) -> (r: String)
    ensures
        r@ == base@ + "/health"@,
{
    let mut r = to_string(base);
    push_str(&mut r, "/health");
    r
}

/// What the wait does after a probe.
pub enum WaitStep {
    /// The server answers: it is ready.
    Ready,
    /// Probe again after a second.
    Retry,
    /// Give up with this error (the caller stops the server first on a timeout).
    Failed(String),
}

/// The wait for a freshly started sidecar.
pub struct HealthWait {
    pub probes: u32,
    /// The program waited for, as messages name it.
    pub program: String,
    /// The log file named when the program exits early, if any.
    pub log: Option<String>,
}

pub open spec fn exited_text(program: Seq<char>, status: Seq<char>, log: Option<Seq<char>>) -> Seq<
    char,
> {
    program + " 가 즉시 종료됨 (exit: "@ + status + ")"@ + match log {
        Some(l) => ". 로그: "@ + l,
        None => Seq::empty(),
    }
}

pub open spec fn timeout_text(program: Seq<char>) -> Seq<char> {
    program + " 가 120초 내에 준비되지 않음"@
}

impl HealthWait {
    pub fn new(program: &str, log: Option<&str>) -> (r: HealthWait)
        ensures
            r.probes == 0,
            r.program@ == program@,
            crate::models::opt_view(r.log) == crate::tools::image::opt_str_view(log),
    {
        let log = match log {
            Some(l) => Some(to_string(l)),
            None => None,
        };
        HealthWait { probes: 0, program: to_string(program), log }
    }

    /// Takes one probe's outcome: `exited` is the exit status when the process has
    /// ended, `healthy` whether the status endpoint answered with success. An exit
    /// fails the wait at once; a healthy answer ends it; after
    /// [`MAX_HEALTH_PROBES`] probes without either it fails.
    pub fn on_probe(&mut self, exited: Option<&str>, healthy: bool) -> (r: WaitStep)
        requires
            old(self).probes < MAX_HEALTH_PROBES,
        ensures
            final(self).probes == old(self).probes + 1,
            final(self).program@ == old(self).program@,
            crate::models::opt_view(final(self).log) == crate::models::opt_view(old(self).log),
            match exited {
                Some(st) => r matches WaitStep::Failed(e) && e@ == exited_text(
                    old(self).program@,
                    st@,
                    crate::models::opt_view(old(self).log),
                ),
                None => if healthy {
                    r is Ready
                } else if final(self).probes >= MAX_HEALTH_PROBES {
                    r matches WaitStep::Failed(e) && e@ == timeout_text(old(self).program@)
                } else {
                    r is Retry
                },
            },
    {
        self.probes = self.probes + 1;
        if let Some(st) = exited {
            let mut e = to_string(self.program.as_str());
            push_str(&mut e, " 가 즉시 종료됨 (exit: ");
            push_str(&mut e, st);
            push_str(&mut e, ")");
            match &self.log {
                Some(l) => {
                    push_str(&mut e, ". 로그: ");
                    push_str(&mut e, l.as_str());
                },
                None => {},
            }
            return WaitStep::Failed(e);
        }
        if healthy {
            return WaitStep::Ready;
        }
        if self.probes >= MAX_HEALTH_PROBES {
            let mut e = to_string(self.program.as_str());
            push_str(&mut e, " 가 120초 내에 준비되지 않음");
            return WaitStep::Failed(e);
        }
        WaitStep::Retry
    }
}

} // verus!

//! Where the Python sidecars are looked for, and the decisions around the
//! local speech recognition service.

use vstd::prelude::*;
use crate::text::{decimal, join_path, join_path_str, owned, push_decimal};

verus! {

/// The port of the local GPU speech recognition service.
pub const ASR_GPU_PORT: u16 = 38081;

/// What a health probe of the speech recognition service found.
#[derive(Debug, Clone, Copy, PartialEq, Eq)]
pub enum AsrServiceStatus {
    Healthy,
    Unavailable,
}

/// What to do about the speech recognition service at start-up.
#[derive(Debug, Clone, PartialEq, Eq)]
pub enum AsrStartPlan {
    /// A healthy service already listens on the port: use it.
    Reuse,
    /// No script was found: run without GPU recognition.
    NoScript,
    /// Start the script at this path.
    Start { script: String },
}

/// `base` joined with each part in turn.
pub open spec fn join_all(base: Seq<char>, parts: Seq<Seq<char>>) -> Seq<char>
    decreases parts.len(),
{
    if parts.len() == 0 {
        base
    } else {
        join_path(join_all(base, parts.drop_last()), parts.last())
    }
}

/// The Python interpreters tried, in order: the embedded one under
/// `resources`, the embedded one beside it, the development virtual
/// environment, then `python` and `py` from the system path.
pub open spec fn python_candidates_spec(resource_dir: Seq<char>) -> Seq<Seq<char>> {
    seq![
        join_all(resource_dir, seq!["resources"@, "python-embed"@, "python.exe"@]),
        join_all(resource_dir, seq!["python-embed"@, "python.exe"@]),
        join_all(resource_dir, seq!["resources"@, "python-env"@, "Scripts"@, "python.exe"@]),
        "python"@,
        "py"@,
    ]
}

/// The places of a script of the `dy-mcp` directory, in order.
pub open spec fn script_candidates_spec(resource_dir: Seq<char>, script: Seq<char>) -> Seq<Seq<char>> {
    seq![
        join_all(resource_dir, seq!["resources"@, "dy-mcp"@, script]),
        join_all(resource_dir, seq!["dy-mcp"@, script]),
    ]
}

/// The directories put in front of `PATH` for the sidecars, when they exist.
pub open spec fn runtime_dir_candidates_spec(resource_dir: Seq<char>) -> Seq<Seq<char>> {
    seq![
        join_all(resource_dir, seq!["resources"@, "bin"@]),
        join_all(resource_dir, seq!["bin"@]),
        join_all(resource_dir, seq!["resources"@, "python-embed"@]),
        join_all(resource_dir, seq!["python-embed"@]),
        join_all(resource_dir, seq!["resources"@, "dy-mcp"@]),
        join_all(resource_dir, seq!["dy-mcp"@]),
    ]
}

/// The candidates whose flag is set, in their order.
pub open spec fn kept(candidates: Seq<Seq<char>>, flags: Seq<bool>) -> Seq<Seq<char>>
    decreases candidates.len(),
{
    if candidates.len() == 0 || flags.len() == 0 {
        seq![]
    } else {
        let rest = kept(candidates.drop_last(), flags.drop_last());
        if flags.last() {
            rest.push(candidates.last())
        } else {
            rest
        }
    }
}

/// The views of a sequence of strings.
pub open spec fn views(s: Seq<String>) -> Seq<Seq<char>> {
    s.map_values(|x: String| x@)
}

/// Calls `std::path::Path::exists` on the path. What is on disk decides the
/// result, so nothing is stated of it.
#[verifier::external_body]
fn path_exists(path: &str) -> (r: bool) {
    std::path::Path::new(path).exists()
}

fn join_parts(base: &str, parts: &[&str]) -> (r: String)
    ensures
        r@ == join_all(base@, parts@.map_values(|p: &str| p@)),
{
    let mut out = owned(base);
    let mut i: usize = 0;
    while i < parts.len()
        invariant
            i <= parts@.len(),
            out@ == join_all(base@, parts@.take(i as int).map_values(|p: &str| p@)),
        decreases parts.len() - i,
    {
        let next = join_path_str(out.as_str(), parts[i]);
        proof {
            let t = parts@.take(i + 1).map_values(|p: &str| p@);
            assert(t.drop_last() =~= parts@.take(i as int).map_values(|p: &str| p@));
        }
        out = next;
        i = i + 1;
    }
    assert(parts@.take(i as int) =~= parts@);
    out
}

/// The Python interpreters tried for the sidecar (see `python_candidates_spec`).
pub fn python_candidates(resource_dir: &str) -> (r: Vec<String>)
    ensures
        views(r@) == python_candidates_spec(resource_dir@),
{
    let a = ["resources", "python-embed", "python.exe"];
    let b = ["python-embed", "python.exe"];
    let c = ["resources", "python-env", "Scripts", "python.exe"];
    assert(a@.map_values(|p: &str| p@) =~= seq!["resources"@, "python-embed"@, "python.exe"@]);
    assert(b@.map_values(|p: &str| p@) =~= seq!["python-embed"@, "python.exe"@]);
    assert(c@.map_values(|p: &str| p@) =~= seq!["resources"@, "python-env"@, "Scripts"@, "python.exe"@]);
    let mut out: Vec<String> = Vec::new();
    out.push(join_parts(resource_dir, &a));
    out.push(join_parts(resource_dir, &b));
    out.push(join_parts(resource_dir, &c));
    out.push(owned("python"));
    out.push(owned("py"));
    assert(views(out@) =~= python_candidates_spec(resource_dir@));
    out
}

/// The places where a `dy-mcp` script is looked for (see `script_candidates_spec`).
pub fn script_candidates(resource_dir: &str, script: &str) -> (r: Vec<String>)
    ensures
        views(r@) == script_candidates_spec(resource_dir@, script@),
{
    let a = ["resources", "dy-mcp", script];
    let b = ["dy-mcp", script];
    assert(a@.map_values(|p: &str| p@) =~= seq!["resources"@, "dy-mcp"@, script@]);
    assert(b@.map_values(|p: &str| p@) =~= seq!["dy-mcp"@, script@]);
    let mut out: Vec<String> = Vec::new();
    out.push(join_parts(resource_dir, &a));
    out.push(join_parts(resource_dir, &b));
    assert(views(out@) =~= script_candidates_spec(resource_dir@, script@));
    out
}

/// The runtime directories that may go in front of `PATH` (see
/// `runtime_dir_candidates_spec`).
pub fn runtime_dir_candidates(resource_dir: &str) -> (r: Vec<String>)
    ensures
        views(r@) == runtime_dir_candidates_spec(resource_dir@),
{
    let a = ["resources", "bin"];
    let b = ["bin"];
    let c = ["resources", "python-embed"];
    let d = ["python-embed"];
    let e = ["resources", "dy-mcp"];
    let f = ["dy-mcp"];
    assert(a@.map_values(|p: &str| p@) =~= seq!["resources"@, "bin"@]);
    assert(b@.map_values(|p: &str| p@) =~= seq!["bin"@]);
    assert(c@.map_values(|p: &str| p@) =~= seq!["resources"@, "python-embed"@]);
    assert(d@.map_values(|p: &str| p@) =~= seq!["python-embed"@]);
    assert(e@.map_values(|p: &str| p@) =~= seq!["resources"@, "dy-mcp"@]);
    assert(f@.map_values(|p: &str| p@) =~= seq!["dy-mcp"@]);
    let mut out: Vec<String> = Vec::new();
    out.push(join_parts(resource_dir, &a));
    out.push(join_parts(resource_dir, &b));
    out.push(join_parts(resource_dir, &c));
    out.push(join_parts(resource_dir, &d));
    out.push(join_parts(resource_dir, &e));
    out.push(join_parts(resource_dir, &f));
    assert(views(out@) =~= runtime_dir_candidates_spec(resource_dir@));
    out
}

/// The candidates whose flag is set, in their order.
pub fn keep_flagged(candidates: Vec<String>, flags: &Vec<bool>) -> (r: Vec<String>)
    requires
        candidates.len() == flags.len(),
    ensures
        views(r@) == kept(views(candidates@), flags@),
{
    let mut out: Vec<String> = Vec::new();
    let mut rest = candidates;
    let ghost all = rest@;
    let mut i: usize = 0;
    while i < flags.len()
        invariant
            all.len() == flags@.len(),
            i <= flags@.len(),
            rest@ == all.skip(i as int),
            views(out@) == kept(views(all.take(i as int)), flags@.take(i as int)),
        decreases flags.len() - i,
    {
        let c = rest.remove(0);
        proof {
            assert(all.skip(i as int)[0] == c);
            let t = all.take(i + 1);
            assert(views(t).drop_last() =~= views(all.take(i as int)));
            assert(flags@.take(i + 1).drop_last() =~= flags@.take(i as int));
            assert(views(t).last() == c@);
        }
        if flags[i] {
            out.push(c);
        }
        i = i + 1;
        assert(rest@ =~= all.skip(i as int));
        assert(views(out@) =~= kept(views(all.take(i as int)), flags@.take(i as int)));
    }
    assert(all.take(i as int) =~= all);
    assert(flags@.take(i as int) =~= flags@);
    out
}

/// The runtime directories that exist, in their order: of the `bin`,
/// `python-embed` and `dy-mcp` directories (each under `resources` and beside
/// it), those that `Path::exists` finds.
pub fn runtime_search_dirs(resource_dir: &str) -> (r: Vec<String>)
    ensures
        exists|flags: Seq<bool>| flags.len() == 6 && views(r@) == kept(
            runtime_dir_candidates_spec(resource_dir@),
            flags,
        ),
{
    let candidates = runtime_dir_candidates(resource_dir);
    let mut flags: Vec<bool> = Vec::new();
    let mut i: usize = 0;
    while i < candidates.len()
        invariant
            i <= candidates.len(),
            flags.len() == i,
        decreases candidates.len() - i,
    {
        flags.push(path_exists(candidates[i].as_str()));
        i = i + 1;
    }
    let r = keep_flagged(candidates, &flags);
    assert(flags@.len() == 6);
    r
}

/// The first candidate for which the flag is set.
pub open spec fn first_flagged(candidates: Seq<Seq<char>>, flags: Seq<bool>) -> Option<Seq<char>>
    decreases candidates.len(),
{
    if candidates.len() == 0 || flags.len() == 0 {
        None
    } else if flags[0] {
        Some(candidates[0])
    } else {
        first_flagged(candidates.drop_first(), flags.drop_first())
    }
}

/// The first candidate whose flag is set, or `None` when no flag is set.
pub fn first_flagged_candidate(candidates: &Vec<String>, flags: &Vec<bool>) -> (r: Option<String>)
    requires
        candidates.len() == flags.len(),
    ensures
        opt_string_view(r) == first_flagged(views(candidates@), flags@),
{
    let mut i: usize = 0;
    while i < candidates.len()
        invariant
            i <= candidates@.len(),
            candidates@.len() == flags@.len(),
            forall|j: int| 0 <= j < i ==> !(#[trigger] flags@[j]),
        decreases candidates.len() - i,
    {
        if flags[i] {
            proof {
                lemma_first_flagged_at(views(candidates@), flags@, i as int);
            }
            return Some(candidates[i].clone());
        }
        i = i + 1;
    }
    proof {
        lemma_first_flagged_none(views(candidates@), flags@);
    }
    None
}

/// The first of the candidates that exists on disk, in their order: each is
/// looked up with `Path::exists`, and `first_flagged_candidate` picks the
/// first one found.
pub fn first_existing(candidates: &Vec<String>) -> (r: Option<String>)
    ensures
        exists|flags: Seq<bool>| flags.len() == candidates@.len() && opt_string_view(r) == first_flagged(
            views(candidates@),
            flags,
        ),
{
    let mut flags: Vec<bool> = Vec::new();
    let mut i: usize = 0;
    while i < candidates.len()
        invariant
            i <= candidates.len(),
            flags.len() == i,
        decreases candidates.len() - i,
    {
        flags.push(path_exists(candidates[i].as_str()));
        i = i + 1;
    }
    first_flagged_candidate(candidates, &flags)
}

/// The view of an optional string.
pub open spec fn opt_string_view(o: Option<String>) -> Option<Seq<char>> {
    match o {
        Some(s) => Some(s@),
        None => None,
    }
}

proof fn lemma_first_flagged_at(c: Seq<Seq<char>>, f: Seq<bool>, i: int)
    requires
        0 <= i < c.len(),
        f.len() == c.len(),
        f[i],
        forall|j: int| 0 <= j < i ==> !(#[trigger] f[j]),
    ensures
        first_flagged(c, f) == Some(c[i]),
    decreases i,
{
    if i > 0 {
        lemma_first_flagged_at(c.drop_first(), f.drop_first(), i - 1);
    }
}

proof fn lemma_first_flagged_none(c: Seq<Seq<char>>, f: Seq<bool>)
    requires
        f.len() == c.len(),
        forall|j: int| 0 <= j < f.len() ==> !(#[trigger] f[j]),
    ensures
        first_flagged(c, f) == None::<Seq<char>>,
    decreases c.len(),
{
    if c.len() > 0 {
        assert(!f[0]);
        lemma_first_flagged_none(c.drop_first(), f.drop_first());
    }
}

/// The health URL of the service listening on `port`.
pub open spec fn health_url_spec(port: u16) -> Seq<char> {
    "http://127.0.0.1:"@ + decimal(port as nat) + "/health"@
}

/// The health URL of the service listening on `port`.
pub fn health_url(port: u16) -> (r: String)
    ensures
        r@ == health_url_spec(port),
{
    let mut out = String::new();
    out.append("http://127.0.0.1:");
    push_decimal(&mut out, port as u64);
    out.append("/health");
    out
}

/// A probe is healthy when the request succeeded with status 200; `status`
/// is `None` when the request failed.
pub fn asr_status_from(status: Option<u16>) -> (r: AsrServiceStatus)
    ensures
        r == (if status == Some(200u16) {
            AsrServiceStatus::Healthy
        } else {
            AsrServiceStatus::Unavailable
        }),
{
    match status {
        Some(code) => if code == 200 {
            AsrServiceStatus::Healthy
        } else {
            AsrServiceStatus::Unavailable
        },
        None => AsrServiceStatus::Unavailable,
    }
}

/// Reuse a healthy service; otherwise start the first script found, or run
/// without one.
pub fn plan_asr_start(status: AsrServiceStatus, script: Option<String>) -> (r: AsrStartPlan)
    ensures
        status == AsrServiceStatus::Healthy ==> r == AsrStartPlan::Reuse,
        status == AsrServiceStatus::Unavailable ==> r == (match script {
            Some(s) => AsrStartPlan::Start { script: s },
            None => AsrStartPlan::NoScript,
        }),
{
    match status {
        AsrServiceStatus::Healthy => AsrStartPlan::Reuse,
        AsrServiceStatus::Unavailable => match script {
            Some(s) => AsrStartPlan::Start { script: s },
            None => AsrStartPlan::NoScript,
        },
    }
}


/// Pairs of strings taken as texts.
pub open spec fn pairs_view(s: Seq<(String, String)>) -> Seq<(Seq<char>, Seq<char>)> {
    s.map_values(|p: (String, String)| (p.0@, p.1@))
}

/// The environment of the API server sidecar: its token, where it downloads
/// to, and UTF-8 for Python's input and output.
pub open spec fn sidecar_env_spec(token: Seq<char>, download_root: Seq<char>) -> Seq<(Seq<char>, Seq<char>)> {
    seq![
        ("SIDECAR_TOKEN"@, token),
        ("SIDECAR_DOWNLOAD_ROOT"@, download_root),
        ("PYTHONUTF8"@, "1"@),
        ("PYTHONIOENCODING"@, "utf-8"@),
    ]
}

/// The environment of the speech recognition sidecar: its port, and UTF-8
/// for Python's input and output.
pub open spec fn asr_env_spec(port: u16) -> Seq<(Seq<char>, Seq<char>)> {
    seq![("ASR_GPU_PORT"@, decimal(port as nat)), ("PYTHONUTF8"@, "1"@), ("PYTHONIOENCODING"@, "utf-8"@)]
}

/// The environment variables set for the API server sidecar (see `sidecar_env_spec`).
pub fn sidecar_environment(token: &str, download_root: &str) -> (r: Vec<(String, String)>)
    ensures
        pairs_view(r@) == sidecar_env_spec(token@, download_root@),
{
    let mut out: Vec<(String, String)> = Vec::new();
    out.push((owned("SIDECAR_TOKEN"), owned(token)));
    out.push((owned("SIDECAR_DOWNLOAD_ROOT"), owned(download_root)));
    out.push((owned("PYTHONUTF8"), owned("1")));
    out.push((owned("PYTHONIOENCODING"), owned("utf-8")));
    assert(pairs_view(out@) =~= sidecar_env_spec(token@, download_root@));
    out
}

/// The environment variables set for the speech recognition sidecar (see `asr_env_spec`).
pub fn asr_environment(port: u16) -> (r: Vec<(String, String)>)
    ensures
        pairs_view(r@) == asr_env_spec(port),
{
    let mut digits = String::new();
    push_decimal(&mut digits, port as u64);
    let mut out: Vec<(String, String)> = Vec::new();
    out.push((owned("ASR_GPU_PORT"), digits));
    out.push((owned("PYTHONUTF8"), owned("1")));
    out.push((owned("PYTHONIOENCODING"), owned("utf-8")));
    assert(pairs_view(out@) =~= asr_env_spec(port));
    out
}
} // verus!

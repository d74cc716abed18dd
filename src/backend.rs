//! Choice of the execution backend and the command that runs a job: directly
//! or through the managed runtime on the host, or inside a container with the
//! job's files mounted at fixed points.
use vstd::prelude::*;
use crate::json::{get_field, JsonValue, JsonView};
use crate::translate::is_survival;

verus! {

/// A command ready to spawn: program, arguments, environment overrides.
pub struct LaunchCommand {
    pub program: String,
    pub args: Vec<String>,
    pub env: Vec<(String, String)>,
}

pub open spec fn strings_view(v: Seq<String>) -> Seq<Seq<char>> {
    Seq::new(v.len(), |i: int| v[i]@)
}

pub open spec fn pairs_view(v: Seq<(String, String)>) -> Seq<(Seq<char>, Seq<char>)> {
    Seq::new(v.len(), |i: int| (v[i].0@, v[i].1@))
}

impl View for LaunchCommand {
    type V = (Seq<char>, Seq<Seq<char>>, Seq<(Seq<char>, Seq<char>)>);

    open spec fn view(&self) -> Self::V {
        (self.program@, strings_view(self.args@), pairs_view(self.env@))
    }
}

/// What the host offers for running a job on the managed runtime.
pub struct RuntimeProbe {
    /// The runtime binary inside the project's managed environment, if it exists.
    pub managed_runtime: Option<String>,
    /// The managed environment's library directory, if it exists.
    pub managed_library: Option<String>,
    /// Whether the runtime manager answers on this system.
    pub manager_available: bool,
}

/// The job runs in a container exactly when its `backend` is the string `docker`.
pub open spec fn wants_container(cfg: JsonView) -> bool {
    get_field(cfg, "backend"@) == Some(JsonView::Str("docker"@))
}

pub fn uses_docker(config: &JsonValue) -> (r: bool)
    ensures
        r == wants_container(config@),
{
    proof {
        reveal_strlit("docker");
    }
    match config.get("backend") {
        Some(JsonValue::Str(s)) => {
            let docker = String::from_str("docker");
            *s == docker
        },
        _ => false,
    }
}

pub open spec fn script_name(cfg: JsonView) -> Seq<char> {
    if is_survival(cfg) {
        "Main_Survival.R"@
    } else {
        "Main_Binary.R"@
    }
}

/// The script that runs the job's kind of analysis.
pub fn analysis_script(config: &JsonValue) -> (r: String)
    ensures
        r@ == script_name(config@),
{
    proof {
        reveal_strlit("survival");
    }
    let survival = match config.get("type") {
        Some(JsonValue::Str(s)) => {
            let surv = String::from_str("survival");
            *s == surv
        },
        _ => false,
    };
    if survival {
        String::from_str("Main_Survival.R")
    } else {
        String::from_str("Main_Binary.R")
    }
}

pub open spec fn config_arg(config_path: Seq<char>) -> Seq<char> {
    "--config="@ + config_path
}

/// The command for a job run on the host, by the first tier that the host
/// offers: the managed environment's own runtime (with its library directory
/// made known to the runtime), the runtime manager, or the system runtime.
pub open spec fn local_command_spec(
    script: Seq<char>,
    config_path: Seq<char>,
    managed_runtime: Option<Seq<char>>,
    managed_library: Option<Seq<char>>,
    manager_available: bool,
) -> (Seq<char>, Seq<Seq<char>>, Seq<(Seq<char>, Seq<char>)>) {
    match managed_runtime {
        Some(rt) => (
            rt,
            seq![script, config_arg(config_path)],
            match managed_library {
                Some(lib) => seq![("R_LIBS"@, lib)],
                None => seq![],
            },
        ),
        None => if manager_available {
            ("pixi"@, seq!["run"@, "Rscript"@, script, config_arg(config_path)], seq![])
        } else {
            ("Rscript"@, seq![script, config_arg(config_path)], seq![])
        },
    }
}

pub open spec fn opt_view(o: Option<String>) -> Option<Seq<char>> {
    match o {
        Some(s) => Some(s@),
        None => None,
    }
}

fn string_of(s: &str) -> (r: String)
    ensures
        r@ == s@,
{
    String::from_str(s)
}

/// Resolves the command that runs `script` on the host with the configuration
/// file `config_path`.
pub fn local_command(script: &str, config_path: &str, probe: &RuntimeProbe) -> (r: LaunchCommand)
    ensures
        r@ == local_command_spec(
            script@,
            config_path@,
            opt_view(probe.managed_runtime),
            opt_view(probe.managed_library),
            probe.manager_available,
        ),
{
    let mut arg = String::from_str("--config=");
    arg.append(config_path);
    let mut args: Vec<String> = Vec::new();
    let mut env: Vec<(String, String)> = Vec::new();
    let program;
    match &probe.managed_runtime {
        Some(rt) => {
            program = rt.clone();
            args.push(string_of(script));
            args.push(arg);
            match &probe.managed_library {
                Some(lib) => {
                    env.push((String::from_str("R_LIBS"), lib.clone()));
                },
                None => {},
            }
        },
        None => {
            if probe.manager_available {
                program = String::from_str("pixi");
                args.push(String::from_str("run"));
                args.push(String::from_str("Rscript"));
            } else {
                program = String::from_str("Rscript");
            }
            args.push(string_of(script));
            args.push(arg);
        },
    }
    let r = LaunchCommand { program, args, env };
    assert(r@.1 =~= local_command_spec(
        script@,
        config_path@,
        opt_view(probe.managed_runtime),
        opt_view(probe.managed_library),
        probe.manager_available,
    ).1);
    assert(r@.2 =~= local_command_spec(
        script@,
        config_path@,
        opt_view(probe.managed_runtime),
        opt_view(probe.managed_library),
        probe.manager_available,
    ).2);
    r
}

/// Index of the first candidate that holds the marker, if any.
pub open spec fn first_marked(candidates: Seq<(String, bool)>) -> Option<int> {
    if exists|i: int| 0 <= i < candidates.len() && candidates[i].1 {
        Some(
            choose|i: int|
                0 <= i < candidates.len() && candidates[i].1 && forall|j: int|
                    0 <= j < i ==> !candidates[j].1,
        )
    } else {
        None
    }
}

proof fn lemma_first_marked(candidates: Seq<(String, bool)>, i: int)
    requires
        0 <= i < candidates.len(),
        candidates[i].1,
        forall|j: int| 0 <= j < i ==> !candidates[j].1,
    ensures
        first_marked(candidates) == Some(i),
{
    let k = choose|k: int|
        0 <= k < candidates.len() && candidates[k].1 && forall|j: int| 0 <= j < k ==> !candidates[j].1;
    assert(0 <= k < candidates.len() && candidates[k].1 && forall|j: int|
        0 <= j < k ==> !candidates[j].1);
    if k < i {
        assert(!candidates[k].1);
    } else if k > i {
        assert(!candidates[i].1);
    }
}

/// The project root: the first candidate directory, in the order given, that
/// holds the marker file. Each candidate comes with whether it holds it.
pub fn find_project_root(candidates: &Vec<(String, bool)>) -> (r: Option<String>)
    ensures
        match first_marked(candidates@) {
            Some(i) => r is Some && r->0@ == candidates@[i].0@,
            None => r is None,
        },
{
    let mut i: usize = 0;
    while i < candidates.len()
        invariant
            i <= candidates@.len(),
            forall|j: int| 0 <= j < i ==> !candidates@[j].1,
        decreases candidates@.len() - i,
    {
        if candidates[i].1 {
            proof {
                lemma_first_marked(candidates@, i as int);
            }
            return Some(candidates[i].0.clone());
        }
        i = i + 1;
    }
    None
}

/// The host's operating system family.
#[derive(PartialEq, Eq, Structural, Clone, Copy)]
pub enum HostOs {
    MacOs,
    Linux,
    Windows,
}

pub open spec fn docker_locations(os: HostOs) -> Seq<Seq<char>> {
    match os {
        HostOs::MacOs => seq![
            "/usr/local/bin/docker"@,
            "/Applications/Docker.app/Contents/Resources/bin/docker"@,
            "/opt/homebrew/bin/docker"@,
        ],
        HostOs::Linux => seq!["/usr/local/bin/docker"@, "/usr/bin/docker"@],
        HostOs::Windows => seq![],
    }
}

/// Where the container runtime's command-line tool is installed by default on
/// `os`, in the order to look.
pub fn docker_candidates(os: HostOs) -> (r: Vec<String>)
    ensures
        strings_view(r@) == docker_locations(os),
{
    let mut r: Vec<String> = Vec::new();
    match os {
        HostOs::MacOs => {
            r.push(String::from_str("/usr/local/bin/docker"));
            r.push(String::from_str("/Applications/Docker.app/Contents/Resources/bin/docker"));
            r.push(String::from_str("/opt/homebrew/bin/docker"));
        },
        HostOs::Linux => {
            r.push(String::from_str("/usr/local/bin/docker"));
            r.push(String::from_str("/usr/bin/docker"));
        },
        HostOs::Windows => {},
    }
    assert(strings_view(r@) =~= docker_locations(os));
    r
}

/// The container tool to run: the one found on the search path, else the
/// first well-known location that exists, else the bare name `docker`.
pub fn find_docker(on_path: Option<String>, candidates: &Vec<(String, bool)>) -> (r: String)
    ensures
        on_path is Some ==> r@ == on_path->0@,
        on_path is None ==> match first_marked(candidates@) {
            Some(i) => r@ == candidates@[i].0@,
            None => r@ == "docker"@,
        },
{
    match on_path {
        Some(p) => p,
        None => match find_project_root(candidates) {
            Some(c) => c,
            None => String::from_str("docker"),
        },
    }
}

} // verus!

//! The containerized backend: host paths are remapped to fixed mount points
//! (`/data` and `/evidence` read-only, `/output` read-write), the translated
//! job description is mounted read-only at `/config.yaml`, and the container
//! runtime is invoked with the job's kind.
use vstd::prelude::*;
use crate::backend::strings_view;
use crate::error::{with_details, AppError};
use crate::json::{entries_view, get_field, lemma_object_view, JsonValue, JsonView};
use crate::text::{chars_of, slice_string};
use crate::translate::{transform_config_for_r, translate};

verus! {

/// `s` with every backslash turned into a forward slash.
pub open spec fn forward_slashes(s: Seq<char>) -> Seq<char> {
    Seq::new(s.len(), |i: int| if s[i] == '\\' { '/' } else { s[i] })
}

/// A host path as the container runtime's volume option takes it.
pub fn docker_path(p: &str) -> (r: String)
    ensures
        r@ == forward_slashes(p@),
{
    let s = chars_of(p);
    let n = s.len();
    let mut out = String::new();
    let mut last: usize = 0;
    let mut i: usize = 0;
    while i < n
        invariant
            n == s@.len(),
            s@ == p@,
            last <= i <= n,
            out@ == forward_slashes(s@.subrange(0, last as int)),
            forall|j: int| last <= j < i ==> s@[j] != '\\',
        decreases n - i,
    {
        if s[i] == '\\' {
            let piece = slice_string(p, last, i);
            out.append(piece.as_str());
            out.append("/");
            proof {
                reveal_strlit("/");
            }
            assert(forward_slashes(s@.subrange(0, i + 1)) =~= forward_slashes(
                s@.subrange(0, last as int),
            ) + s@.subrange(last as int, i as int) + "/"@);
            last = i + 1;
        }
        i = i + 1;
    }
    let piece = slice_string(p, last, n);
    out.append(piece.as_str());
    assert(forward_slashes(s@.subrange(0, n as int)) =~= forward_slashes(
        s@.subrange(0, last as int),
    ) + s@.subrange(last as int, n as int));
    assert(s@.subrange(0, n as int) =~= p@);
    out
}

/// The text of a string field, or the empty text when there is none.
pub open spec fn str_field(cfg: JsonView, key: Seq<char>) -> Seq<char> {
    match get_field(cfg, key) {
        Some(JsonView::Str(s)) => s,
        _ => Seq::empty(),
    }
}

fn str_field_of(config: &JsonValue, key: &str) -> (r: String)
    ensures
        r@ == str_field(config@, key@),
{
    match config.get(key) {
        Some(JsonValue::Str(s)) => s.clone(),
        _ => String::new(),
    }
}

/// The job's kind as the container takes it: the `type` text, `binary` when absent.
pub open spec fn job_type(cfg: JsonView) -> Seq<char> {
    match get_field(cfg, "type"@) {
        Some(JsonView::Str(s)) => s,
        _ => "binary"@,
    }
}

/// The gene file named by a non-null `evidence` sub-document, if it is a string.
pub open spec fn gene_file_of(cfg: JsonView) -> Option<Seq<char>> {
    match get_field(cfg, "evidence"@) {
        Some(ev) => match get_field(ev, "geneFile"@) {
            Some(JsonView::Str(g)) => Some(g),
            _ => None,
        },
        None => None,
    }
}

/// The evidence sub-document with its gene file moved under `/evidence`.
pub open spec fn remap_evidence(ev: JsonView, gene_name: Option<Seq<char>>) -> JsonView {
    match (ev, gene_name) {
        (JsonView::Object(fs), Some(name)) => if get_field(ev, "geneFile"@) is Some && get_field(
            ev,
            "geneFile"@,
        )->0 is Str {
            JsonView::Object(
                Seq::new(
                    fs.len(),
                    |i: int|
                        if fs[i].0 == "geneFile"@ {
                            ("geneFile"@, JsonView::Str("/evidence/"@ + name))
                        } else {
                            fs[i]
                        },
                ),
            )
        } else {
            ev
        },
        _ => ev,
    }
}

/// One entry of the job description as the container sees it.
pub open spec fn remap_entry(
    e: (Seq<char>, JsonView),
    data_name: Seq<char>,
    gene_name: Option<Seq<char>>,
) -> (Seq<char>, JsonView) {
    if e.0 == "dataFile"@ {
        ("dataFile"@, JsonView::Str("/data/"@ + data_name))
    } else if e.0 == "outputDir"@ {
        ("outputDir"@, JsonView::Str("/output"@))
    } else if e.0 == "evidence"@ {
        ("evidence"@, remap_evidence(e.1, gene_name))
    } else {
        e
    }
}

/// The entries with the backend selector dropped and the rest remapped.
pub open spec fn remap_entries(
    es: Seq<(Seq<char>, JsonView)>,
    data_name: Seq<char>,
    gene_name: Option<Seq<char>>,
) -> Seq<(Seq<char>, JsonView)>
    decreases es.len(),
{
    if es.len() == 0 {
        seq![]
    } else {
        let front = remap_entries(es.drop_last(), data_name, gene_name);
        if es.last().0 == "backend"@ {
            front
        } else {
            front.push(remap_entry(es.last(), data_name, gene_name))
        }
    }
}

/// The job description with host paths replaced by their mount points.
pub open spec fn remap_config(
    cfg: JsonView,
    data_name: Seq<char>,
    gene_name: Option<Seq<char>>,
) -> JsonView {
    match cfg {
        JsonView::Object(es) => JsonView::Object(remap_entries(es, data_name, gene_name)),
        _ => cfg,
    }
}

fn remap_evidence_exec(ev: &JsonValue, gene_name: &Option<String>) -> (r: JsonValue)
    ensures
        r@ == remap_evidence(ev@, opt_str(*gene_name)),
{
    let has_gene_text = match ev.get("geneFile") {
        Some(JsonValue::Str(_)) => true,
        _ => false,
    };
    match (ev, gene_name) {
        (JsonValue::Object(fs), Some(name)) => {
            if !has_gene_text {
                return ev.duplicate();
            }
            let ghost fv = entries_view(fs@);
            assert(ev@ == JsonView::Object(fv)) by {
                lemma_object_view(*fs);
            }
            let key = String::from_str("geneFile");
            let mut out: Vec<(String, JsonValue)> = Vec::new();
            let mut i: usize = 0;
            while i < fs.len()
                invariant
                    key@ == "geneFile"@,
                    fv == entries_view(fs@),
                    i <= fs@.len(),
                    out@.len() == i,
                    forall|j: int|
                        0 <= j < i ==> (#[trigger] entries_view(out@)[j]) == (if fv[j].0
                            == "geneFile"@ {
                            ("geneFile"@, JsonView::Str("/evidence/"@ + name@))
                        } else {
                            fv[j]
                        }),
                decreases fs@.len() - i,
            {
                let ghost before = out@;
                if fs[i].0 == key {
                    let mut text = String::from_str("/evidence/");
                    text.append(name.as_str());
                    out.push((String::from_str("geneFile"), JsonValue::Str(text)));
                } else {
                    out.push((fs[i].0.clone(), fs[i].1.duplicate()));
                }
                assert forall|j: int| 0 <= j < i + 1 implies (#[trigger] entries_view(out@)[j]) == (
                if fv[j].0 == "geneFile"@ {
                    ("geneFile"@, JsonView::Str("/evidence/"@ + name@))
                } else {
                    fv[j]
                }) by {
                    if j < i {
                        assert(out@[j] == before[j]);
                        assert(entries_view(before)[j] == entries_view(out@)[j]);
                    }
                }
                i = i + 1;
            }
            proof {
                lemma_object_view(out);
                assert(entries_view(out@) =~= remap_evidence(ev@, opt_str(*gene_name))->Object_0);
            }
            JsonValue::Object(out)
        },
        _ => ev.duplicate(),
    }
}

pub open spec fn opt_str(o: Option<String>) -> Option<Seq<char>> {
    match o {
        Some(s) => Some(s@),
        None => None,
    }
}

fn remap_entry_exec(e: &(String, JsonValue), data_name: &str, gene_name: &Option<String>) -> (r: (
    String,
    JsonValue,
))
    ensures
        (r.0@, r.1@) == remap_entry((e.0@, e.1@), data_name@, opt_str(*gene_name)),
{
    let data_key = String::from_str("dataFile");
    let output_key = String::from_str("outputDir");
    let evidence_key = String::from_str("evidence");
    if e.0 == data_key {
        let mut text = String::from_str("/data/");
        text.append(data_name);
        (data_key, JsonValue::Str(text))
    } else if e.0 == output_key {
        (output_key, JsonValue::Str(String::from_str("/output")))
    } else if e.0 == evidence_key {
        (evidence_key, remap_evidence_exec(&e.1, gene_name))
    } else {
        (e.0.clone(), e.1.duplicate())
    }
}

/// The job description as the container sees it: the data file under `/data`,
/// the output directory at `/output`, the gene file under `/evidence`, and no
/// backend selector.
pub fn docker_job_config(config: &JsonValue, data_name: &str, gene_name: &Option<String>) -> (r:
    JsonValue)
    ensures
        r@ == remap_config(config@, data_name@, opt_str(*gene_name)),
{
    match config {
        JsonValue::Object(es) => {
            let ghost ev = entries_view(es@);
            assert(config@ == JsonView::Object(ev)) by {
                lemma_object_view(*es);
            }
            let backend_key = String::from_str("backend");
            let mut out: Vec<(String, JsonValue)> = Vec::new();
            let mut i: usize = 0;
            assert(ev.subrange(0, 0) =~= Seq::<(Seq<char>, JsonView)>::empty());
            assert(entries_view(out@) =~= Seq::<(Seq<char>, JsonView)>::empty());
            while i < es.len()
                invariant
                    backend_key@ == "backend"@,
                    ev == entries_view(es@),
                    i <= es@.len(),
                    entries_view(out@) == remap_entries(
                        ev.subrange(0, i as int),
                        data_name@,
                        opt_str(*gene_name),
                    ),
                decreases es@.len() - i,
            {
                assert(ev.subrange(0, i + 1).drop_last() =~= ev.subrange(0, i as int));
                assert(ev.subrange(0, i + 1).last() == ev[i as int]);
                if es[i].0 != backend_key {
                    let ghost before = out@;
                    let entry = remap_entry_exec(&es[i], data_name, gene_name);
                    out.push(entry);
                    assert(entries_view(out@) =~= entries_view(before).push((entry.0@, entry.1@)));
                }
                i = i + 1;
            }
            assert(ev.subrange(0, es@.len() as int) =~= ev);
            proof {
                lemma_object_view(out);
            }
            JsonValue::Object(out)
        },
        _ => config.duplicate(),
    }
}

/// Relies on `std::path::Path::parent`: the path without its final component.
/// The split depends on the platform's separators, so nothing is stated of it.
#[verifier::external_body]
fn path_parent(p: &str) -> (r: Option<String>) {
    std::path::Path::new(p).parent().map(|q| q.to_string_lossy().to_string())
}

/// Relies on `std::path::Path::file_name`: the path's final component.
/// The split depends on the platform's separators, so nothing is stated of it.
#[verifier::external_body]
fn path_file_name(p: &str) -> (r: Option<String>) {
    std::path::Path::new(p).file_name().map(|q| q.to_string_lossy().to_string())
}

/// What a containerized run needs besides the configuration file's location.
pub struct DockerPlan {
    /// The translated job description, with the container's working directory.
    pub job_config: JsonValue,
    /// Host directory mounted read-only at `/data`.
    pub data_dir: String,
    /// Host directory mounted read-write at `/output`.
    pub output_dir: String,
    /// Host directory mounted read-only at `/evidence`, when evidence is given.
    pub evidence_dir: Option<String>,
    /// The job's kind, passed to the container.
    pub analysis_type: String,
}

/// The plan for host paths already split into directory and file name.
pub open spec fn plan_holds(
    plan: DockerPlan,
    cfg: JsonView,
    data_dir: Seq<char>,
    data_name: Seq<char>,
    gene_name: Option<Seq<char>>,
    evidence_dir: Option<Seq<char>>,
) -> bool {
    &&& plan.job_config@ == translate(remap_config(cfg, data_name, gene_name), "/app"@)
    &&& plan.data_dir@ == data_dir
    &&& plan.output_dir@ == str_field(cfg, "outputDir"@)
    &&& opt_str(plan.evidence_dir) == evidence_dir
    &&& plan.analysis_type@ == job_type(cfg)
}

/// Builds the plan from the host paths' parts.
pub fn docker_plan_from_parts(
    config: &JsonValue,
    data_dir: String,
    data_name: &str,
    gene_name: &Option<String>,
    evidence_dir: Option<String>,
) -> (r: DockerPlan)
    ensures
        plan_holds(r, config@, data_dir@, data_name@, opt_str(*gene_name), opt_str(evidence_dir)),
{
    let remapped = docker_job_config(config, data_name, gene_name);
    let job_config = transform_config_for_r(&remapped, &Some(String::from_str("/app")));
    let analysis_type = match config.get("type") {
        Some(JsonValue::Str(s)) => s.clone(),
        _ => String::from_str("binary"),
    };
    DockerPlan {
        job_config,
        data_dir,
        output_dir: str_field_of(config, "outputDir"),
        evidence_dir,
        analysis_type,
    }
}

pub open spec fn docker_fields_missing(cfg: JsonView) -> bool {
    str_field(cfg, "dataFile"@).len() == 0 || str_field(cfg, "outputDir"@).len() == 0
}

/// Plans a containerized run. Fails before anything is spawned when the data
/// file or the output directory is missing, or the data file's path has no
/// directory or no file name.
pub fn plan_docker_run(config: &JsonValue) -> (r: Result<DockerPlan, AppError>)
    ensures
        docker_fields_missing(config@) ==> r is Err && r->Err_0@ == with_details(
            "E006"@,
            "Analysis execution failed."@,
            "dataFile and outputDir are required for Docker mode."@,
        ),
        !docker_fields_missing(config@) && r is Err ==> r->Err_0@ == with_details(
            "E006"@,
            "Analysis execution failed."@,
            "Invalid data file path"@,
        ) || r->Err_0@ == with_details(
            "E006"@,
            "Analysis execution failed."@,
            "Invalid data file name"@,
        ),
        r is Ok ==> exists|dd: Seq<char>, dn: Seq<char>, gn: Option<Seq<char>>, ed: Option<Seq<char>>|
            plan_holds(r->Ok_0, config@, dd, dn, gn, ed),
        r is Ok ==> (gene_file_of(config@) is None ==> r->Ok_0.evidence_dir is None),
{
    let data_file = str_field_of(config, "dataFile");
    let output_dir = str_field_of(config, "outputDir");
    if data_file.as_str().unicode_len() == 0 || output_dir.as_str().unicode_len() == 0 {
        return Err(AppError::analysis_failed("dataFile and outputDir are required for Docker mode."));
    }
    let data_dir = match path_parent(data_file.as_str()) {
        Some(d) => d,
        None => {
            return Err(AppError::analysis_failed("Invalid data file path"));
        },
    };
    let data_name = match path_file_name(data_file.as_str()) {
        Some(n) => n,
        None => {
            return Err(AppError::analysis_failed("Invalid data file name"));
        },
    };
    let gene_file: Option<String> = match config.get("evidence") {
        Some(ev) => match ev.get("geneFile") {
            Some(JsonValue::Str(g)) => Some(g.clone()),
            _ => None,
        },
        None => None,
    };
    let (gene_name, evidence_dir) = match &gene_file {
        Some(g) => (path_file_name(g.as_str()), path_parent(g.as_str())),
        None => (None, None),
    };
    let plan = docker_plan_from_parts(config, data_dir, data_name.as_str(), &gene_name, evidence_dir);
    Ok(plan)
}

/// The container runtime's arguments for `plan`, with the translated job
/// description written at `config_file` on the host.
pub open spec fn docker_args_spec(
    data_dir: Seq<char>,
    output_dir: Seq<char>,
    config_file: Seq<char>,
    evidence_dir: Option<Seq<char>>,
    analysis_type: Seq<char>,
) -> Seq<Seq<char>> {
    seq![
        "run"@,
        "--rm"@,
        "-v"@,
        forward_slashes(data_dir) + ":/data:ro"@,
        "-v"@,
        forward_slashes(output_dir) + ":/output"@,
        "-v"@,
        forward_slashes(config_file) + ":/config.yaml:ro"@,
    ] + match evidence_dir {
        Some(d) => seq!["-v"@, forward_slashes(d) + ":/evidence:ro"@],
        None => seq![],
    } + seq!["jyryu3161/promise"@, analysis_type, "--config=/config.yaml"@]
}

fn mount(path: &str, suffix: &str) -> (r: String)
    ensures
        r@ == forward_slashes(path@) + suffix@,
{
    let mut r = docker_path(path);
    r.append(suffix);
    r
}

pub fn docker_args(plan: &DockerPlan, config_file: &str) -> (r: Vec<String>)
    ensures
        strings_view(r@) == docker_args_spec(
            plan.data_dir@,
            plan.output_dir@,
            config_file@,
            opt_str(plan.evidence_dir),
            plan.analysis_type@,
        ),
{
    let mut r: Vec<String> = Vec::new();
    r.push(String::from_str("run"));
    r.push(String::from_str("--rm"));
    r.push(String::from_str("-v"));
    r.push(mount(plan.data_dir.as_str(), ":/data:ro"));
    r.push(String::from_str("-v"));
    r.push(mount(plan.output_dir.as_str(), ":/output"));
    r.push(String::from_str("-v"));
    r.push(mount(config_file, ":/config.yaml:ro"));
    match &plan.evidence_dir {
        Some(d) => {
            r.push(String::from_str("-v"));
            r.push(mount(d.as_str(), ":/evidence:ro"));
        },
        None => {},
    }
    r.push(String::from_str("jyryu3161/promise"));
    r.push(plan.analysis_type.clone());
    r.push(String::from_str("--config=/config.yaml"));
    assert(strings_view(r@) =~= docker_args_spec(
        plan.data_dir@,
        plan.output_dir@,
        config_file@,
        opt_str(plan.evidence_dir),
        plan.analysis_type@,
    ));
    r
}

} // verus!

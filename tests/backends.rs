use promise_gui::backend::{
    analysis_script, docker_candidates, find_docker, find_project_root, local_command, uses_docker,
    HostOs, RuntimeProbe,
};
use promise_gui::docker::{docker_args, docker_path, plan_docker_run};
use promise_gui::json::JsonValue;

fn s(v: &str) -> JsonValue {
    JsonValue::Str(v.to_string())
}

fn obj(entries: Vec<(&str, JsonValue)>) -> JsonValue {
    JsonValue::Object(entries.into_iter().map(|(k, v)| (k.to_string(), v)).collect())
}

fn text(v: Option<&JsonValue>) -> Option<String> {
    match v {
        Some(JsonValue::Str(t)) => Some(t.clone()),
        _ => None,
    }
}

#[test]
fn managed_runtime_is_preferred_with_its_library() {
    let probe = RuntimeProbe {
        managed_runtime: Some("/p/.pixi/envs/default/bin/Rscript".to_string()),
        managed_library: Some("/p/.pixi/envs/default/lib/R/library".to_string()),
        manager_available: true,
    };
    let cmd = local_command("Main_Binary.R", "/tmp/c.yaml", &probe);
    assert_eq!(cmd.program, "/p/.pixi/envs/default/bin/Rscript");
    assert_eq!(cmd.args, vec!["Main_Binary.R".to_string(), "--config=/tmp/c.yaml".to_string()]);
    assert_eq!(
        cmd.env,
        vec![("R_LIBS".to_string(), "/p/.pixi/envs/default/lib/R/library".to_string())]
    );
}

#[test]
fn runtime_manager_is_the_second_tier() {
    let probe =
        RuntimeProbe { managed_runtime: None, managed_library: None, manager_available: true };
    let cmd = local_command("Main_Survival.R", "c.yaml", &probe);
    assert_eq!(cmd.program, "pixi");
    assert_eq!(cmd.args, vec!["run", "Rscript", "Main_Survival.R", "--config=c.yaml"]);
    assert!(cmd.env.is_empty());
}

#[test]
fn system_runtime_is_the_last_tier() {
    let probe =
        RuntimeProbe { managed_runtime: None, managed_library: None, manager_available: false };
    let cmd = local_command("Main_Binary.R", "c.yaml", &probe);
    assert_eq!(cmd.program, "Rscript");
    assert_eq!(cmd.args, vec!["Main_Binary.R", "--config=c.yaml"]);
}

#[test]
fn script_follows_the_job_kind() {
    assert_eq!(analysis_script(&obj(vec![("type", s("survival"))])), "Main_Survival.R");
    assert_eq!(analysis_script(&obj(vec![("type", s("binary"))])), "Main_Binary.R");
    assert_eq!(analysis_script(&obj(vec![])), "Main_Binary.R");
}

#[test]
fn backend_selector() {
    assert!(uses_docker(&obj(vec![("backend", s("docker"))])));
    assert!(!uses_docker(&obj(vec![("backend", s("local"))])));
    assert!(!uses_docker(&obj(vec![])));
}

#[test]
fn project_root_is_the_first_marked_candidate() {
    let c = vec![("/a".to_string(), false), ("/b".to_string(), true), ("/c".to_string(), true)];
    assert_eq!(find_project_root(&c), Some("/b".to_string()));
    assert_eq!(find_project_root(&vec![("/a".to_string(), false)]), None);
}

#[test]
fn docker_lookup_order() {
    let linux = docker_candidates(HostOs::Linux);
    assert_eq!(linux, vec!["/usr/local/bin/docker", "/usr/bin/docker"]);
    assert!(docker_candidates(HostOs::Windows).is_empty());
    assert_eq!(docker_candidates(HostOs::MacOs).len(), 3);
    let marked = vec![("/usr/local/bin/docker".to_string(), false), ("/usr/bin/docker".to_string(), true)];
    assert_eq!(find_docker(Some("/x/docker".to_string()), &marked), "/x/docker");
    assert_eq!(find_docker(None, &marked), "/usr/bin/docker");
    assert_eq!(find_docker(None, &vec![]), "docker");
}

#[test]
fn docker_paths_use_forward_slashes() {
    assert_eq!(docker_path("C:\\data\\in"), "C:/data/in");
    assert_eq!(docker_path("/plain/path"), "/plain/path");
}

#[test]
fn docker_requires_data_and_output() {
    let err = match plan_docker_run(&obj(vec![("dataFile", s("/d/x.csv"))])) {
        Err(e) => e,
        Ok(_) => panic!("accepted a job without an output directory"),
    };
    assert_eq!(err.code, "E006");
    assert_eq!(err.details, Some("dataFile and outputDir are required for Docker mode.".to_string()));
}

#[test]
fn docker_plan_remaps_paths_and_mounts() {
    let config = obj(vec![
        ("type", s("survival")),
        ("backend", s("docker")),
        ("dataFile", s("/home/u/data/x.csv")),
        ("outputDir", s("/home/u/out")),
        ("event", s("OS")),
        ("evidence", obj(vec![("geneFile", s("/home/u/ev/genes.csv"))])),
    ]);
    let plan = match plan_docker_run(&config) {
        Ok(p) => p,
        Err(_) => panic!("plan refused"),
    };
    assert_eq!(plan.data_dir, "/home/u/data");
    assert_eq!(plan.output_dir, "/home/u/out");
    assert_eq!(plan.evidence_dir, Some("/home/u/ev".to_string()));
    assert_eq!(plan.analysis_type, "survival");
    assert_eq!(text(plan.job_config.get("workdir")).unwrap(), "/app");
    let section = plan.job_config.get("survival").unwrap();
    assert_eq!(text(section.get("data_file")).unwrap(), "/data/x.csv");
    assert_eq!(text(section.get("output_dir")).unwrap(), "/output");
    let evidence = plan.job_config.get("evidence").unwrap();
    assert_eq!(text(evidence.get("gene_file")).unwrap(), "/evidence/genes.csv");
    let args = docker_args(&plan, "/tmp/cfg.yaml");
    assert_eq!(
        args,
        vec![
            "run",
            "--rm",
            "-v",
            "/home/u/data:/data:ro",
            "-v",
            "/home/u/out:/output",
            "-v",
            "/tmp/cfg.yaml:/config.yaml:ro",
            "-v",
            "/home/u/ev:/evidence:ro",
            "jyryu3161/promise",
            "survival",
            "--config=/config.yaml",
        ]
    );
}

#[test]
fn docker_rejects_paths_without_directory_or_name() {
    let no_dir = obj(vec![("dataFile", s("/")), ("outputDir", s("/o"))]);
    match plan_docker_run(&no_dir) {
        Err(e) => assert_eq!(e.details, Some("Invalid data file path".to_string())),
        Ok(_) => panic!("accepted a root data path"),
    }
    let no_name = obj(vec![("dataFile", s("/data/..")), ("outputDir", s("/o"))]);
    match plan_docker_run(&no_name) {
        Err(e) => assert_eq!(e.details, Some("Invalid data file name".to_string())),
        Ok(_) => panic!("accepted a data path without a file name"),
    }
}

#[test]
fn docker_plan_without_evidence_mounts_three_volumes() {
    let config = obj(vec![
        ("dataFile", s("rel/x.csv")),
        ("outputDir", s("out")),
        ("evidence", JsonValue::Null),
    ]);
    let plan = match plan_docker_run(&config) {
        Ok(p) => p,
        Err(_) => panic!("plan refused"),
    };
    assert_eq!(plan.evidence_dir, None);
    assert_eq!(plan.analysis_type, "binary");
    let args = docker_args(&plan, "c.yaml");
    assert_eq!(args.len(), 11);
    assert!(plan.job_config.get("binary").unwrap().get("data_file").is_some());
}

use promise_gui::json::JsonValue;
use promise_gui::translate::transform_config_for_r;

fn s(v: &str) -> JsonValue {
    JsonValue::Str(v.to_string())
}

fn n(v: &str) -> JsonValue {
    JsonValue::Number(v.to_string())
}

fn obj(entries: Vec<(&str, JsonValue)>) -> JsonValue {
    JsonValue::Object(entries.into_iter().map(|(k, v)| (k.to_string(), v)).collect())
}

fn text(v: Option<&JsonValue>) -> Option<String> {
    match v {
        Some(JsonValue::Str(t)) => Some(t.clone()),
        _ => None,
    }
}

fn number(v: Option<&JsonValue>) -> Option<String> {
    match v {
        Some(JsonValue::Number(t)) => Some(t.clone()),
        _ => None,
    }
}

fn keys(v: &JsonValue) -> Vec<String> {
    match v {
        JsonValue::Object(es) => es.iter().map(|(k, _)| k.clone()).collect(),
        _ => Vec::new(),
    }
}

fn binary_input(time_variable: bool) -> JsonValue {
    let mut entries = vec![
        ("type", s("binary")),
        ("dataFile", s("/data/test.csv")),
        ("sampleId", s("sample")),
        ("outcome", s("OS")),
    ];
    if time_variable {
        entries.push(("timeVariable", s("OS.year")));
    }
    entries.extend(vec![
        ("splitProp", n("0.7")),
        ("numSeed", n("100")),
        ("outputDir", s("results/binary")),
        ("freq", n("50")),
        ("exclude", JsonValue::Array(vec![])),
        ("include", JsonValue::Array(vec![])),
        ("maxCandidatesPerStep", JsonValue::Null),
        ("prescreenSeeds", JsonValue::Null),
        ("topK", JsonValue::Null),
        ("pAdjustMethod", s("fdr")),
        ("pThreshold", n("0.05")),
        ("evidence", JsonValue::Null),
    ]);
    obj(entries)
}

#[test]
fn test_transform_binary_config() {
    let gui_config = binary_input(false);
    let r_config = transform_config_for_r(&gui_config, &Some("/project".to_string()));

    let workdir = text(r_config.get("workdir")).unwrap();
    assert!(!workdir.is_empty());
    assert!(r_config.get("binary").is_some());
    assert!(r_config.get("survival").is_none());

    let binary = r_config.get("binary").unwrap();
    assert_eq!(text(binary.get("data_file")).unwrap(), "/data/test.csv");
    assert_eq!(text(binary.get("sample_id")).unwrap(), "sample");
    assert_eq!(text(binary.get("outcome")).unwrap(), "OS");
    assert_eq!(number(binary.get("split_prop")).unwrap(), "0.7");
    assert_eq!(number(binary.get("num_seed")).unwrap(), "100");
    assert_eq!(text(binary.get("output_dir")).unwrap(), "results/binary");
    assert_eq!(number(binary.get("freq")).unwrap(), "50");
    assert_eq!(text(binary.get("p_adjust_method")).unwrap(), "fdr");
    assert_eq!(number(binary.get("p_threshold")).unwrap(), "0.05");
    assert!(binary.get("max_candidates_per_step").is_none());
    assert!(binary.get("top_k").is_none());
}

#[test]
fn test_transform_survival_config() {
    let gui_config = obj(vec![
        ("type", s("survival")),
        ("dataFile", s("/data/test.csv")),
        ("sampleId", s("sample")),
        ("event", s("OS")),
        ("timeVariable", s("OS.year")),
        ("horizon", n("5")),
        ("splitProp", n("0.7")),
        ("numSeed", n("100")),
        ("outputDir", s("results/survival")),
        ("freq", n("50")),
        ("exclude", JsonValue::Array(vec![])),
        ("include", JsonValue::Array(vec![])),
        ("pAdjustMethod", s("fdr")),
        ("pThreshold", n("0.05")),
        ("evidence", JsonValue::Null),
    ]);
    let r_config = transform_config_for_r(&gui_config, &Some("/project".to_string()));

    assert!(r_config.get("survival").is_some());
    assert!(r_config.get("binary").is_none());

    let survival = r_config.get("survival").unwrap();
    assert_eq!(text(survival.get("event")).unwrap(), "OS");
    assert_eq!(text(survival.get("time_variable")).unwrap(), "OS.year");
    assert_eq!(number(survival.get("horizon")).unwrap(), "5");
}

#[test]
fn test_transform_config_with_evidence() {
    let gui_config = obj(vec![
        ("type", s("binary")),
        ("dataFile", s("/data/test.csv")),
        ("sampleId", s("sample")),
        ("outcome", s("OS")),
        ("splitProp", n("0.7")),
        ("numSeed", n("100")),
        ("outputDir", s("results")),
        ("freq", n("50")),
        ("exclude", JsonValue::Array(vec![])),
        ("include", JsonValue::Array(vec![])),
        ("pAdjustMethod", s("fdr")),
        ("pThreshold", n("0.05")),
        (
            "evidence",
            obj(vec![
                ("geneFile", s("/evidence/genes.csv")),
                ("scoreThreshold", n("0.1")),
                ("source", s("Open Targets Platform")),
                ("diseaseName", s("breast carcinoma")),
                ("efoId", s("EFO_0000305")),
            ]),
        ),
    ]);
    let r_config = transform_config_for_r(&gui_config, &Some("/project".to_string()));

    let evidence = r_config.get("evidence").unwrap();
    assert_eq!(text(evidence.get("gene_file")).unwrap(), "/evidence/genes.csv");
    assert_eq!(number(evidence.get("score_threshold")).unwrap(), "0.1");
    assert_eq!(text(evidence.get("disease_name")).unwrap(), "breast carcinoma");
    assert_eq!(text(evidence.get("efo_id")).unwrap(), "EFO_0000305");
}

#[test]
fn test_transform_binary_excludes_time_variable() {
    let gui_config = binary_input(true);
    let r_config = transform_config_for_r(&gui_config, &Some("/project".to_string()));
    let binary = r_config.get("binary").unwrap();
    assert!(binary.get("time_variable").is_none());
}

#[test]
fn survival_excludes_outcome_even_when_given() {
    let gui_config = obj(vec![
        ("type", s("survival")),
        ("outcome", s("status")),
        ("event", s("OS")),
    ]);
    let r_config = transform_config_for_r(&gui_config, &None);
    let survival = r_config.get("survival").unwrap();
    assert!(survival.get("outcome").is_none());
    assert_eq!(keys(survival), vec!["event".to_string()]);
}

#[test]
fn missing_root_falls_back_to_dot() {
    let r_config = transform_config_for_r(&binary_input(false), &None);
    assert_eq!(text(r_config.get("workdir")).unwrap(), ".");
}

#[test]
fn present_optional_values_are_kept_and_null_time_variable_dropped() {
    let gui_config = obj(vec![
        ("type", s("survival")),
        ("timeVariable", JsonValue::Null),
        ("topK", n("25")),
        ("maxCandidatesPerStep", n("4")),
    ]);
    let r_config = transform_config_for_r(&gui_config, &None);
    let survival = r_config.get("survival").unwrap();
    assert!(survival.get("time_variable").is_none());
    assert_eq!(number(survival.get("top_k")).unwrap(), "25");
    assert_eq!(keys(survival), vec!["max_candidates_per_step".to_string(), "top_k".to_string()]);
}

#[test]
fn unknown_type_is_translated_as_binary() {
    let r_config = transform_config_for_r(&obj(vec![("type", s("other"))]), &None);
    assert_eq!(keys(&r_config), vec!["workdir".to_string(), "binary".to_string()]);
}

#[test]
fn translating_twice_gives_the_same_document() {
    let input = binary_input(true);
    let root = Some("/project".to_string());
    let a = transform_config_for_r(&input, &root);
    let b = transform_config_for_r(&input, &root);
    assert_eq!(format!("{:?}", a), format!("{:?}", b));
}

#[test]
fn default_adjustment_is_fdr() {
    assert_eq!(promise_gui::translate::default_p_adjust(), "fdr");
}

#[test]
fn binary_section_keeps_only_its_keys() {
    let gui_config = obj(vec![
        ("type", s("binary")),
        ("event", s("OS")),
        ("horizon", n("5")),
        ("timeVariable", s("t")),
        ("outcome", s("status")),
    ]);
    let r_config = transform_config_for_r(&gui_config, &None);
    assert_eq!(keys(r_config.get("binary").unwrap()), vec!["outcome".to_string()]);
}

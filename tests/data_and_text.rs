use promise_gui::csvinfo::{split_csv_line, CsvSummary};
use promise_gui::evidence::{
    cache_csv_name, cache_file_id, cache_meta_name, has_more_pages, is_disease_hit, replace_char,
    search_query, search_too_short, targets_query,
};
use promise_gui::plots::is_plot_extension;
use promise_gui::json::JsonValue;
use promise_gui::presets::{preset_from_stem, replace_text, save_filter_name};
use promise_gui::runtime::{package_check_code, reports_true, version_line};
use promise_gui::validate::{config_validate, NumericChecks};

#[test]
fn csv_cells_are_trimmed_and_unquoted() {
    assert_eq!(split_csv_line(" \"id\" , age,\"\"name\"\" "), vec!["id", "age", "name"]);
    assert_eq!(split_csv_line(""), vec![""]);
    assert_eq!(split_csv_line("a,,b,"), vec!["a", "", "b", ""]);
}

#[test]
fn csv_summary_keeps_five_preview_rows_and_counts_all() {
    let mut s = CsvSummary::from_header("sample,OS");
    assert_eq!(s.columns, vec!["sample", "OS"]);
    for i in 0..7 {
        s.add_row(&format!("s{},1", i));
    }
    assert_eq!(s.row_count, 7);
    assert_eq!(s.preview_rows.len(), 5);
    assert_eq!(s.preview_rows[4], vec!["s4", "1"]);
}

#[test]
fn version_line_is_the_first_mentioning_version() {
    let out = "R scripting front-end\r\nRscript (R) version 4.3.1 (2023-06-16)\nother version\n";
    assert_eq!(version_line(out), Some("Rscript (R) version 4.3.1 (2023-06-16)".to_string()));
    assert_eq!(version_line("nothing here\n"), None);
    assert_eq!(version_line(""), None);
}

#[test]
fn true_is_read_in_any_case() {
    assert!(reports_true("TRUE"));
    assert!(reports_true("  true\n"));
    assert!(reports_true("TrUe"));
    assert!(!reports_true("FALSE"));
    assert!(!reports_true("true!"));
    assert_eq!(package_check_code("glmnet"), "cat(requireNamespace('glmnet', quietly=TRUE))");
}

#[test]
fn cache_names_replace_colons() {
    assert_eq!(cache_file_id("MONDO:0007254"), "MONDO_0007254");
    assert_eq!(cache_csv_name("EFO:1:2"), "EFO_1_2.csv");
    assert_eq!(cache_meta_name("EFO_0000305"), "EFO_0000305.meta.json");
    assert_eq!(replace_char("a\"b", '"', "\\\""), "a\\\"b");
}

#[test]
fn paging_stops_on_short_page_or_when_all_arrived() {
    assert!(has_more_pages(3000, 3000, 7000));
    assert!(!has_more_pages(2999, 2999, 7000));
    assert!(!has_more_pages(3000, 6000, 6000));
}

#[test]
fn only_disease_hits_are_kept() {
    assert!(is_disease_hit("disease"));
    assert!(!is_disease_hit("target"));
}

#[test]
fn queries_carry_their_parameters() {
    let q = search_query("breast \"carcinoma\"");
    assert!(q.contains("queryString: \"breast \\\"carcinoma\\\"\""));
    assert!(q.contains("size: 20"));
    let t = targets_query("EFO_0000305", 2);
    assert!(t.contains("disease(efoId: \"EFO_0000305\")"));
    assert!(t.contains("index: 2, size: 3000"));
}

#[test]
fn presets_are_recognised_by_name() {
    let p = preset_from_stem("TCGA_BRCA_opentargets_analysis", "/c/TCGA_BRCA_opentargets_analysis.yaml")
        .unwrap();
    assert_eq!(p.id, "TCGA_BRCA");
    assert_eq!(p.label, "BRCA");
    assert!(p.has_evidence);
    let p = preset_from_stem("TCGA_LUNG_ADENO_analysis", "x").unwrap();
    assert_eq!(p.id, "TCGA_LUNG_ADENO");
    assert_eq!(p.label, "LUNG ADENO");
    assert!(!p.has_evidence);
    assert!(preset_from_stem("other_analysis", "x").is_none());
    assert!(preset_from_stem("TCGA_BRCA", "x").is_none());
    assert_eq!(replace_text("aXXbXXX", "XX", "-"), "a-b-X");
}

#[test]
fn save_filters() {
    assert_eq!(save_filter_name("svg"), "SVG Image");
    assert_eq!(save_filter_name("csv"), "CSV File");
    assert_eq!(save_filter_name("gif"), "All Files");
}

fn s(v: &str) -> JsonValue {
    JsonValue::Str(v.to_string())
}

fn obj(entries: Vec<(&str, JsonValue)>) -> JsonValue {
    JsonValue::Object(entries.into_iter().map(|(k, v)| (k.to_string(), v)).collect())
}

fn fine() -> NumericChecks {
    NumericChecks {
        horizon_positive: true,
        split_prop_out_of_range: false,
        num_seed_below_one: false,
        data_file_missing: false,
    }
}

#[test]
fn test_validate_valid_binary_config() {
    let config = obj(vec![
        ("type", s("binary")),
        ("dataFile", s("/tmp/test.csv")),
        ("sampleId", s("sample_id")),
        ("outputDir", s("/tmp/output")),
        ("outcome", s("status")),
    ]);
    let mut checks = fine();
    checks.data_file_missing = true;
    let errors = config_validate(&config, &checks);
    let non_file_errors: Vec<_> = errors.iter().filter(|e| !e.contains("not found")).collect();
    assert!(non_file_errors.is_empty(), "Got unexpected errors: {:?}", non_file_errors);
    assert_eq!(errors, vec!["Data file not found: /tmp/test.csv"]);
}

#[test]
fn test_validate_missing_required_fields() {
    let config = obj(vec![
        ("type", s("binary")),
        ("dataFile", s("")),
        ("sampleId", s("")),
        ("outputDir", s("")),
        ("outcome", s("")),
    ]);
    let mut checks = fine();
    checks.data_file_missing = true;
    let errors = config_validate(&config, &checks);
    assert!(errors.iter().any(|e| e.contains("Data file")));
    assert!(errors.iter().any(|e| e.contains("Sample ID")));
    assert!(errors.iter().any(|e| e.contains("Output directory")));
    assert!(errors.iter().any(|e| e.contains("Outcome column")));
    assert_eq!(errors.len(), 4);
}

#[test]
fn test_validate_survival_missing_fields() {
    let config = obj(vec![
        ("type", s("survival")),
        ("dataFile", s("/tmp/test.csv")),
        ("sampleId", s("id")),
        ("outputDir", s("/tmp/out")),
        ("event", s("")),
    ]);
    let mut checks = fine();
    checks.horizon_positive = false;
    let errors = config_validate(&config, &checks);
    assert!(errors.iter().any(|e| e.contains("Event column")));
    assert!(errors.iter().any(|e| e.contains("Horizon")));
}

#[test]
fn test_validate_split_prop_range() {
    let mut checks = fine();
    checks.split_prop_out_of_range = true;
    let errors = config_validate(&obj(vec![("type", s("binary"))]), &checks);
    assert!(errors.iter().any(|e| e.contains("Split proportion")));
}

#[test]
fn test_validate_num_seed_range() {
    let mut checks = fine();
    checks.num_seed_below_one = true;
    let errors = config_validate(&obj(vec![("type", s("binary"))]), &checks);
    assert!(errors.iter().any(|e| e.contains("Number of seeds")));
}

#[test]
fn unknown_type_is_reported_with_its_name() {
    let errors = config_validate(&obj(vec![("type", s("cox"))]), &fine());
    assert!(errors.contains(&"Unknown analysis type: 'cox'".to_string()));
}

#[test]
fn short_searches_are_not_sent() {
    assert!(search_too_short("  "));
    assert!(search_too_short(" a "));
    assert!(!search_too_short("ab"));
    assert!(!search_too_short("é"));
    assert!(is_plot_extension("svg"));
    assert!(!is_plot_extension("txt"));
}

use promise_gui::backend::HostOs;
use promise_gui::clock::{epoch_days_to_date, iso_timestamp};
use promise_gui::plots::{plot_order_of_basename, plot_sort_key};
use promise_gui::setup::{
    advance, start_pipeline, step_command, step_failure, step_progress, PipelineState, StepResult,
};

#[test]
fn pipeline_runs_steps_in_order_and_skips() {
    let s = start_pipeline(PipelineState::Pending);
    assert!(s == PipelineState::Running { step: 0 });
    let s = advance(s, StepResult::Skipped);
    assert!(s == PipelineState::Running { step: 1 });
    let s = advance(s, StepResult::Exited { success: true });
    assert!(s == PipelineState::Running { step: 2 });
    let s = advance(s, StepResult::Exited { success: true });
    assert!(s == PipelineState::Succeeded);
}

#[test]
fn pipeline_halts_at_the_first_failure() {
    let s = advance(PipelineState::Running { step: 1 }, StepResult::Exited { success: false });
    assert!(s == PipelineState::Failed { step: 1 });
    let s = advance(s, StepResult::Exited { success: true });
    assert!(s == PipelineState::Failed { step: 1 });
    let e = step_failure(1);
    assert_eq!(e.code, "E007");
    assert_eq!(e.details, Some("pixi install failed".to_string()));
}

#[test]
fn pipeline_cancel_and_spawn_failure() {
    assert!(advance(PipelineState::Running { step: 2 }, StepResult::Cancelled)
        == PipelineState::Cancelled { step: 2 });
    assert!(advance(PipelineState::Running { step: 0 }, StepResult::SpawnFailed)
        == PipelineState::Failed { step: 0 });
}

#[test]
fn step_reports_and_commands() {
    let (i, total, msg) = step_progress(0);
    assert_eq!((i, total), (1, 3));
    assert_eq!(msg, "Installing pixi...");
    let c = step_command(0, HostOs::Linux, "pixi");
    assert_eq!(c.program, "bash");
    assert_eq!(c.args, vec!["-c", "curl -fsSL https://pixi.sh/install.sh | bash"]);
    let c = step_command(2, HostOs::Windows, "/h/.pixi/bin/pixi");
    assert_eq!(c.program, "/h/.pixi/bin/pixi");
    assert_eq!(c.args, vec!["run", "install-r-packages"]);
}

#[test]
fn plot_keys_order_kind_name_and_extension() {
    let k = plot_sort_key("out\\figures\\Binary_ROC.SVG");
    assert_eq!(k, (0, 0, 0, "binary_roc.svg".to_string()));
    let k = plot_sort_key("survival_kaplan_meier.png");
    assert_eq!(k, (1, 1, 1, "survival_kaplan_meier.png".to_string()));
    let k = plot_sort_key("plots/surv_time_auc.tif");
    assert_eq!(k, (1, 3, 2, "surv_time_auc.tif".to_string()));
    let k = plot_sort_key("other_summary.pdf");
    assert_eq!(k, (2, 9, 3, "other_summary.pdf".to_string()));
}

#[test]
fn plot_order_strips_repeated_extensions() {
    assert_eq!(plot_order_of_basename("binary_dca.svg.svg"), (0, 5, 0));
    assert_eq!(plot_order_of_basename("stepwise_selection.png"), (2, 8, 1));
    assert_eq!(plot_order_of_basename("process_summary.png"), (2, 0, 1));
}

#[test]
fn civil_dates() {
    assert_eq!(epoch_days_to_date(0), (1970, 1, 1));
    assert_eq!(epoch_days_to_date(59), (1970, 3, 1));
    assert_eq!(epoch_days_to_date(11016), (2000, 2, 29));
    assert_eq!(epoch_days_to_date(19723), (2024, 1, 1));
}

#[test]
fn timestamps() {
    assert_eq!(iso_timestamp(0), "1970-01-01 00:00:00 UTC");
    assert_eq!(iso_timestamp(1_700_000_000), "2023-11-14 22:13:20 UTC");
}

#[test]
fn dates_respect_month_lengths_and_the_largest_day() {
    assert_eq!(epoch_days_to_date(58), (1970, 2, 28));
    assert_eq!(epoch_days_to_date(789), (1972, 2, 29));
    assert_eq!(epoch_days_to_date(10956), (1999, 12, 31));
    let (_, m, d) = epoch_days_to_date(u64::MAX - 719468);
    assert!((1..=12).contains(&m) && d >= 1 && d <= 31);
}

#[test]
fn base64_text_of_image_bytes() {
    assert_eq!(promise_gui::plots::image_as_base64(&vec![0x89, b'P', b'N', b'G']), "iVBORw==");
    assert_eq!(promise_gui::plots::image_as_base64(&vec![]), "");
}

#[test]
fn runtime_tiers_for_the_setup_screen() {
    let c = promise_gui::runtime::choose_runtime(None, Some("/h/pixi".to_string()), Some("/usr/bin/Rscript".to_string()));
    assert!(c.available);
    assert_eq!(c.path, Some("/h/pixi run Rscript".to_string()));
    let c = promise_gui::runtime::choose_runtime(Some("/p/Rscript".to_string()), None, None);
    assert_eq!(c.path, Some("/p/Rscript".to_string()));
    let c = promise_gui::runtime::choose_runtime(None, None, None);
    assert!(!c.available);
    assert_eq!(c.path, None);
}

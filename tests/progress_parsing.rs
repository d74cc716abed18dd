use promise_gui::progress::{parse_progress_line, ProgressEvent};
use promise_gui::supervisor::{exit_event, line_events, JobEvent};

fn parsed(line: &str) -> ProgressEvent {
    match parse_progress_line(line) {
        Some(e) => e,
        None => panic!("no event for {:?}", line),
    }
}

#[test]
fn test_parse_progress_standard() {
    let result = parse_progress_line("[1/100] Iteration 1 completed");
    assert!(result.is_some());
    let val = result.unwrap();
    assert_eq!(val.current, 1);
    assert_eq!(val.total, 100);
    assert_eq!(val.event_type, "iteration");
    assert_eq!(val.message, "Iteration 1 completed");
}

#[test]
fn test_parse_progress_with_spaces() {
    let result = parse_progress_line("[ 5 / 20 ] Step 5 running");
    assert!(result.is_some());
    let val = result.unwrap();
    assert_eq!(val.current, 5);
    assert_eq!(val.total, 20);
}

#[test]
fn test_parse_progress_no_bracket() {
    let result = parse_progress_line("Some regular log line");
    assert!(result.is_none());
}

#[test]
fn test_parse_progress_invalid_numbers() {
    let result = parse_progress_line("[abc/def] bad data");
    assert!(result.is_none());
}

#[test]
fn test_parse_progress_empty_message() {
    let result = parse_progress_line("[3/10]");
    assert!(result.is_some());
    let val = result.unwrap();
    assert_eq!(val.current, 3);
    assert_eq!(val.total, 10);
    assert_eq!(val.message, "");
}

#[test]
fn test_parse_stepwise_log_iteration() {
    let result = parse_progress_line("STEPWISE_LOG:Iteration 50 of 100 ( 50 %)");
    assert!(result.is_some());
    let val = result.unwrap();
    assert_eq!(val.current, 50);
    assert_eq!(val.total, 100);
    assert_eq!(val.message, "Iteration 50/100");
}

#[test]
fn test_parse_stepwise_log_complete() {
    let result = parse_progress_line("STEPWISE_LOG:Iteration 100 of 100 ( 100 %)");
    assert!(result.is_some());
    let val = result.unwrap();
    assert_eq!(val.current, 100);
    assert_eq!(val.total, 100);
}

#[test]
fn test_parse_stepwise_log_completed_line() {
    let result = parse_progress_line(
        "STEPWISE_LOG:Iteration 5 completed - 3 significant variables (adjusted p < 0.05 )",
    );
    assert!(result.is_some());
    let val = result.unwrap();
    assert_eq!(val.current, 5);
    assert_eq!(val.event_type, "iteration_complete");
}

#[test]
fn test_parse_stepwise_log_total_iterations() {
    let result = parse_progress_line("STEPWISE_LOG:Total iterations: 100 , Variables: 293 ");
    assert!(result.is_some());
    let val = result.unwrap();
    assert_eq!(val.total, 100);
    assert_eq!(val.event_type, "total");
}

#[test]
fn test_parse_stepwise_log_subprogress_ignored() {
    let result = parse_progress_line("STEPWISE_LOG:Iteration 99 - Processing variable 250 of 293");
    assert!(result.is_none());
}

#[test]
fn completed_line_keeps_the_remainder_and_reports_no_total() {
    let e = parsed("STEPWISE_LOG:Iteration 7 completed - 2 significant variables");
    assert_eq!(e.event_type, "iteration_complete");
    assert_eq!(e.current, 7);
    assert_eq!(e.total, 0);
    assert_eq!(e.message, "7 completed - 2 significant variables");
}

#[test]
fn completed_without_trailing_text() {
    let e = parsed("STEPWISE_LOG:Iteration 3 completed");
    assert_eq!(e.event_type, "iteration_complete");
    assert_eq!(e.current, 3);
    assert_eq!(e.message, "3 completed");
}

#[test]
fn iteration_of_without_total_reads_zero() {
    let e = parsed("STEPWISE_LOG:Iteration 4 of ");
    assert_eq!(e.event_type, "iteration");
    assert_eq!(e.current, 4);
    assert_eq!(e.total, 0);
    assert_eq!(e.message, "Iteration 4/0");
}

#[test]
fn total_marker_message_and_fields() {
    let e = parsed("STEPWISE_LOG:Total iterations: 100 , Variables: 293");
    assert_eq!(e.event_type, "total");
    assert_eq!(e.current, 0);
    assert_eq!(e.total, 100);
    assert_eq!(e.message, "Starting 100 iterations");
}

#[test]
fn total_marker_with_bad_number_is_no_event() {
    assert!(parse_progress_line("STEPWISE_LOG:Total iterations: many").is_none());
}

#[test]
fn bracket_without_close_is_no_event() {
    assert!(parse_progress_line("[1/2 message").is_none());
}

#[test]
fn extra_opening_bracket_is_no_event() {
    assert!(parse_progress_line("[[1/2] message").is_none());
}

#[test]
fn bracket_without_slash_is_no_event() {
    assert!(parse_progress_line("[12] message").is_none());
}

#[test]
fn number_too_large_is_no_event() {
    assert!(parse_progress_line("[4294967296/1] big").is_none());
    let e = parsed("[4294967295/1] big");
    assert_eq!(e.current, 4294967295);
}

#[test]
fn plus_sign_is_accepted_like_integer_parsing() {
    let e = parsed("[+3/+4] signed");
    assert_eq!(e.current, 3);
    assert_eq!(e.total, 4);
    assert_eq!(e.message, "signed");
}

#[test]
fn message_is_trimmed_on_both_sides() {
    let e = parsed("[2/9]\t  spaced out  ");
    assert_eq!(e.message, "spaced out");
}

#[test]
fn stderr_total_line_gives_one_progress_event_then_the_line() {
    let line = "STEPWISE_LOG:Total iterations: 100 , Variables: 293";
    let events = line_events(line);
    assert_eq!(events.len(), 2);
    match &events[0] {
        JobEvent::Progress(p) => {
            assert_eq!(p.event_type, "total");
            assert_eq!(p.total, 100);
        }
        _ => panic!("first event is not progress"),
    }
    match &events[1] {
        JobEvent::Log(l) => assert_eq!(l, line),
        _ => panic!("second event is not the line"),
    }
    match exit_event(Ok((true, Some(0)))) {
        JobEvent::Complete { success, code } => {
            assert!(success);
            assert_eq!(code, Some(0));
        }
        _ => panic!("not a completion"),
    }
    match exit_event(Ok((false, Some(1)))) {
        JobEvent::Complete { success, code } => {
            assert!(!success);
            assert_eq!(code, Some(1));
        }
        _ => panic!("not a completion"),
    }
}

#[test]
fn plain_line_gives_only_a_log_event() {
    let events = line_events("Some regular log line");
    assert_eq!(events.len(), 1);
    assert!(matches!(&events[0], JobEvent::Log(l) if l == "Some regular log line"));
}

#[test]
fn failed_wait_gives_an_error_event() {
    match exit_event(Err("wait failed".to_string())) {
        JobEvent::Error(m) => assert_eq!(m, "wait failed"),
        _ => panic!("not an error"),
    }
}

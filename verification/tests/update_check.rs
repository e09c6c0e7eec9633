use sb_scenario_generator::update_check::{
    latest_version, tidy_error, update_available, FetchOutcome, UpdateCheck, UpdateStep,
};

#[test]
fn tidy_error_drops_the_url() {
    assert_eq!(
        tidy_error("error sending request for url (https://api.github.com/x): timed out"),
        "error sending request"
    );
    assert_eq!(tidy_error("connection refused"), "connection refused");
    assert_eq!(tidy_error(" for url (x)"), "");
    let once = tidy_error("a for url (b) for url (c)");
    assert_eq!(once, "a");
    assert_eq!(tidy_error(once), once);
}

#[test]
fn versions() {
    assert_eq!(latest_version("v1.2.0"), "1.2.0");
    assert_eq!(latest_version("1.2.0"), "1.2.0");
    assert_eq!(latest_version(""), "");
    assert!(!update_available("v0.3.1", "0.3.1"));
    assert!(!update_available("0.3.1", "0.3.1"));
    assert!(update_available("v0.4.0", "0.3.1"));
}

fn message(step: &UpdateStep) -> &str {
    match step {
        UpdateStep::Done { spinner_message, .. } => spinner_message,
        UpdateStep::AskToContinue { spinner_message } => spinner_message,
        UpdateStep::Retry { spinner_message } => spinner_message,
        UpdateStep::GiveUp { spinner_message } => spinner_message,
    }
}

#[test]
fn release_ends_the_check() {
    let mut c = UpdateCheck::new();
    assert!(!c.waits_before_fetch());
    let step = c.record(FetchOutcome::Release {
        tag_name: "v1.0.0".to_string(),
        html_url: "https://example.invalid/r".to_string(),
    });
    match &step {
        UpdateStep::Done { release: Some(FetchOutcome::Release { tag_name, .. }), .. } => {
            assert_eq!(tag_name, "v1.0.0")
        }
        _ => panic!("expected done"),
    }
    assert_eq!(message(&step), "");
    let step = UpdateCheck::new().record(FetchOutcome::NoRelease);
    assert!(matches!(step, UpdateStep::Done { release: None, .. }));
    assert_eq!(message(&step), "No releases published yet");
}

#[test]
fn failures_retry_then_give_up() {
    let mut c = UpdateCheck::new();
    let step = c.record(FetchOutcome::Failed { error: "e1".to_string() });
    assert!(matches!(step, UpdateStep::AskToContinue { .. }));
    assert_eq!(message(&step), "Couldn't reach GitHub (attempt 1 of 5)");
    assert!(c.keep_trying(true));
    for attempt in 2..5u8 {
        assert!(c.waits_before_fetch());
        let step = c.record(FetchOutcome::Failed { error: format!("e{attempt}") });
        assert!(matches!(step, UpdateStep::Retry { .. }));
        assert_eq!(message(&step), format!("Couldn't reach GitHub (attempt {attempt} of 5)"));
    }
    let step = c.record(FetchOutcome::Failed {
        error: "error sending request for url (https://x)".to_string(),
    });
    assert!(matches!(step, UpdateStep::GiveUp { .. }));
    assert_eq!(message(&step), "Couldn't reach GitHub (attempt 5 of 5)");
    assert_eq!(c.failure_detail(), Some("error sending request"));
}

#[test]
fn declining_stops_after_first_try() {
    let mut c = UpdateCheck::new();
    c.record(FetchOutcome::Failed { error: "x".repeat(121) });
    assert!(!c.keep_trying(false));
    assert_eq!(c.failure_detail(), None);
    let mut c = UpdateCheck::new();
    c.record(FetchOutcome::Failed { error: String::new() });
    assert_eq!(c.failure_detail(), None);
}

use llauncher::retry::{after_attempt, before_attempt, RetryStep, MAX_RETRIES};
use llauncher::tasks::{parse_status, Outcome, StopAction, Transfer, TransferStatus, Transfers};
use llauncher::error::AppError;

fn task(slot: &str) -> Transfer {
    Transfer::started(
        "1".to_string(),
        slot.to_string(),
        "update".to_string(),
        "/game".to_string(),
        "/game/_download".to_string(),
    )
}

#[test]
fn a_restart_pauses_what_was_running() {
    let mut t = task("game");
    t.progress(Some("downloading".to_string()));
    let registry = Transfers::restored(vec![t]);
    assert_eq!(registry.tasks[0].status, TransferStatus::Paused);
    assert_eq!(registry.tasks[0].kind, "update");
    assert_eq!(registry.tasks[0].stage.as_deref(), Some("downloading"));
    assert!(!registry.busy("game"));
}

#[test]
fn statuses_round_trip_through_their_names() {
    for s in [
        TransferStatus::Idle,
        TransferStatus::Running,
        TransferStatus::Pausing,
        TransferStatus::Paused,
        TransferStatus::Cancelling,
        TransferStatus::Completed,
        TransferStatus::Error,
    ] {
        assert_eq!(parse_status(s.as_str()), Some(s));
    }
    assert_eq!(parse_status("bogus"), None);
}

#[test]
fn a_slot_runs_one_transfer_at_a_time() {
    let mut reg = Transfers::restored(vec![]);
    assert!(reg.begin(task("game")).is_ok());
    assert!(reg.busy("game"));
    let e = reg.begin(task("game")).unwrap_err();
    assert_eq!(e.message(), "API error: A transfer is already running");
    assert!(reg.begin(task("proton")).is_ok());
    assert_eq!(reg.tasks.len(), 2);
}

#[test]
fn a_finished_transfer_gives_its_slot_back() {
    let mut reg = Transfers::restored(vec![]);
    reg.begin(task("game")).unwrap();
    assert!(!reg.tasks[0].finish("1", Outcome::Done));
    assert_eq!(reg.tasks[0].status, TransferStatus::Completed);
    assert!(!reg.busy("game"));
    assert!(reg.begin(task("game")).is_ok());
    assert_eq!(reg.tasks.len(), 1);
}

#[test]
fn stopping_pauses_or_cancels_but_not_while_extracting() {
    let mut t = task("game");
    assert_eq!(t.stop(false).unwrap(), StopAction::Signalled);
    assert_eq!(t.status, TransferStatus::Pausing);
    let mut t = task("game");
    t.progress(Some("extracting".to_string()));
    assert!(!t.can_stop());
    let e = t.stop(true).unwrap_err();
    assert_eq!(e.message(), "API error: Wait for file extraction to finish");
    assert_eq!(t.status, TransferStatus::Running);
}

#[test]
fn a_cancelled_discard_removes_the_files_afterwards() {
    let mut t = task("game");
    assert_eq!(t.stop(true).unwrap(), StopAction::Signalled);
    assert_eq!(t.status, TransferStatus::Cancelling);
    assert!(t.finish("1", Outcome::Cancelled));
    t.discard_done(Ok(()));
    assert_eq!(t.status, TransferStatus::Idle);
    assert!(t.stage.is_none());
}

#[test]
fn a_stale_worker_changes_nothing() {
    let mut t = task("game");
    assert!(!t.finish("other", Outcome::Failed("boom".to_string())));
    assert_eq!(t.status, TransferStatus::Running);
    assert!(t.finish("1", Outcome::Failed("boom".to_string())) == false);
    assert_eq!(t.status, TransferStatus::Error);
    assert_eq!(t.error.as_deref(), Some("boom"));
}

#[test]
fn progress_reports_stage_changes_only_while_active() {
    let mut t = task("game");
    assert!(!t.progress(Some("fetching".to_string())));
    assert!(t.progress(Some("downloading".to_string())));
    t.finish("1", Outcome::Done);
    assert!(!t.progress(Some("verifying".to_string())));
    assert_eq!(t.stage.as_deref(), Some("downloading"));
}

#[test]
fn only_the_launchers_own_cache_is_discardable() {
    assert!(task("game").cache_is_discardable());
    let mut t = task("game");
    t.download_dir = "/home/u/Downloads".to_string();
    assert!(!t.cache_is_discardable());
    assert!(!task("proton").cache_is_discardable());
}

#[test]
fn a_failing_file_is_attempted_once_more_per_retry() {
    let mut left = MAX_RETRIES;
    let mut attempts = 0;
    loop {
        assert!(before_attempt(true).is_none());
        attempts += 1;
        match after_attempt(&mut left, Err(AppError::Http("timeout".to_string()))) {
            RetryStep::Retry => continue,
            RetryStep::Finish(r) => {
                assert!(r.is_err());
                break;
            }
        }
    }
    assert_eq!(attempts, MAX_RETRIES + 1);
}

#[test]
fn a_cancelled_attempt_is_not_retried() {
    let mut left = MAX_RETRIES;
    assert!(matches!(
        after_attempt(&mut left, Err(AppError::Cancelled)),
        RetryStep::Finish(Err(AppError::Cancelled))
    ));
    assert_eq!(left, MAX_RETRIES);
    assert!(matches!(before_attempt(false), Some(AppError::Cancelled)));
}

#[test]
fn a_success_ends_the_retries() {
    let mut left = MAX_RETRIES;
    assert!(matches!(after_attempt(&mut left, Err(AppError::Io("x".to_string()))), RetryStep::Retry));
    assert!(matches!(after_attempt(&mut left, Ok(())), RetryStep::Finish(Ok(()))));
    assert_eq!(left, MAX_RETRIES - 1);
}

fn run(outcomes: &[Result<(), AppError>]) -> (usize, Result<(), AppError>) {
    let mut left = MAX_RETRIES;
    let mut i = 0;
    loop {
        let o = outcomes[i].clone();
        i += 1;
        match after_attempt(&mut left, o) {
            RetryStep::Retry => continue,
            RetryStep::Finish(r) => return (i, r),
        }
    }
}

#[test]
fn the_loop_stops_at_the_first_success_or_cancellation() {
    let fail = || Err(AppError::Http("timeout".to_string()));
    let (n, r) = run(&[fail(), Ok(()), fail()]);
    assert_eq!(n, 2);
    assert!(r.is_ok());
    let (n, r) = run(&[Err(AppError::Cancelled), Ok(())]);
    assert_eq!(n, 1);
    assert!(matches!(r, Err(AppError::Cancelled)));
    let (n, r) = run(&[fail(), fail(), fail(), Ok(())]);
    assert_eq!(n, MAX_RETRIES as usize + 1);
    assert!(matches!(r, Err(AppError::Http(_))));
}

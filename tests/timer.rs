use chrono::Utc;
use masterytrack::display::format_elapsed;
use masterytrack::error::AppError;
use masterytrack::ledger::{ActiveSession, SessionLedger};

#[test]
fn formats_minutes_only() {
    assert_eq!(format_elapsed(125), "02:05 min");
    assert_eq!(format_elapsed(59), "00:59 min");
}

#[test]
fn formats_hours() {
    assert_eq!(format_elapsed(3661), "01:01:01 h");
    assert_eq!(format_elapsed(86399), "23:59:59 h");
}

#[test]
fn formats_zero_negative_and_long_runs() {
    assert_eq!(format_elapsed(0), "00:00 min");
    assert_eq!(format_elapsed(-5), "00:00 min");
    assert_eq!(format_elapsed(3600), "01:00:00 h");
    assert_eq!(format_elapsed(360000 + 61), "100:01:01 h");
}

#[test]
fn active_session_elapsed_includes_accumulated_time() {
    let now = Utc::now().timestamp();
    let session = ActiveSession {
        session_id: 1,
        skill_id: 1,
        started_at: now - 10 * 60,
        last_resume_at: now - 120,
        accumulated_seconds: 240,
        auto_paused: false,
        last_reason: None,
    };

    let elapsed = session.elapsed_seconds(now);
    assert!(
        elapsed >= 360,
        "elapsed seconds should include accumulated + current span"
    );
}

#[test]
fn active_session_status_reflects_pause_state() {
    let now = Utc::now().timestamp();
    let session = ActiveSession {
        session_id: 1,
        skill_id: 1,
        started_at: now,
        last_resume_at: now,
        accumulated_seconds: 0,
        auto_paused: true,
        last_reason: Some("idle".into()),
    };
    let status = session.as_status(now);
    assert!(!status.running, "running flag should respect auto pause");
    assert_eq!(status.last_reason.as_deref(), Some("idle"));
}

#[test]
fn elapsed_is_exact_and_ignores_time_before_resume() {
    let session = ActiveSession {
        session_id: 3,
        skill_id: 1,
        started_at: 1000,
        last_resume_at: 1500,
        accumulated_seconds: 240,
        auto_paused: false,
        last_reason: None,
    };
    assert_eq!(session.elapsed_seconds(1620), 360);
    assert_eq!(session.elapsed_seconds(1400), 240);
}

#[test]
fn start_opens_a_session_and_reports_it() {
    let mut ledger = SessionLedger::new();
    assert!(!ledger.is_running());
    let r = ledger.start(7, Ok(42), 1_000).unwrap();
    assert_eq!(r.session_id, 42);
    assert_eq!(r.started_at, 1_000);
    assert!(ledger.is_running());
    let status = ledger.status(1_090);
    assert!(status.running);
    assert_eq!(status.started_at, Some(1_000));
    assert_eq!(status.elapsed_seconds, 90);
    assert!(!status.auto_paused);
    assert_eq!(ledger.active_seconds(1_090), 90);
}

#[test]
fn start_while_running_fails_and_keeps_the_session() {
    let mut ledger = SessionLedger::new();
    ledger.start(1, Ok(5), 100).unwrap();
    assert_eq!(ledger.start(2, Ok(6), 200), Err(AppError::TimerAlreadyRunning));
    assert_eq!(ledger.admit_start(Ok(())), Err(AppError::TimerAlreadyRunning));
    let status = ledger.status(160);
    assert_eq!(status.started_at, Some(100));
    assert_eq!(status.elapsed_seconds, 60);
    assert_eq!(ledger.plan_stop(160).unwrap().session_id, 5);
}

#[test]
fn start_with_failed_write_stays_idle() {
    let mut ledger = SessionLedger::new();
    assert_eq!(
        ledger.start(1, Err("disk full".to_string()), 100),
        Err(AppError::Database("disk full".to_string()))
    );
    assert!(!ledger.is_running());
}

#[test]
fn admit_start_reports_policy_violation() {
    let ledger = SessionLedger::new();
    assert_eq!(ledger.admit_start(Ok(())), Ok(()));
    assert_eq!(
        ledger.admit_start(Err("No focus app active".to_string())),
        Err(AppError::PolicyViolation("No focus app active".to_string()))
    );
}

#[test]
fn stop_while_idle_fails_with_not_running() {
    let mut ledger = SessionLedger::new();
    assert_eq!(ledger.stop(100, Ok(())), Err(AppError::TimerNotRunning));
    assert_eq!(ledger.plan_stop(100), Err(AppError::TimerNotRunning));
    assert!(!ledger.is_running());
}

#[test]
fn stop_records_whole_minutes() {
    let mut ledger = SessionLedger::new();
    ledger.start(1, Ok(9), 0).unwrap();
    let plan = ledger.plan_stop(3 * 60 + 59).unwrap();
    let f = ledger.stop(3 * 60 + 59, Ok(())).unwrap();
    assert_eq!(plan, f);
    assert_eq!(f.session_id, 9);
    assert_eq!(f.ended_at, 239);
    assert_eq!(f.duration_minutes, 3);
    assert!(!ledger.is_running());
    assert_eq!(ledger.active_seconds(500), 0);
}

#[test]
fn start_then_immediate_stop_records_one_minute() {
    let mut ledger = SessionLedger::new();
    ledger.start(1, Ok(11), 5_000).unwrap();
    let f = ledger.stop(5_000, Ok(())).unwrap();
    assert_eq!(f.session_id, 11);
    assert_eq!(f.duration_minutes, 1);
}

#[test]
fn stop_with_failed_write_keeps_running() {
    let mut ledger = SessionLedger::new();
    ledger.start(1, Ok(2), 0).unwrap();
    assert_eq!(
        ledger.stop(600, Err("locked".to_string())),
        Err(AppError::Database("locked".to_string()))
    );
    assert!(ledger.is_running());
    assert_eq!(ledger.stop(600, Ok(())).unwrap().duration_minutes, 10);
}

#[test]
fn force_pause_while_idle_is_a_no_op() {
    let mut ledger = SessionLedger::new();
    assert!(ledger.plan_force_pause("idle", 10).is_none());
    assert_eq!(ledger.force_pause(10, Ok(())), Ok(None));
    assert!(!ledger.is_running());
}

#[test]
fn force_pause_finalizes_with_the_reason_in_the_notes() {
    let mut ledger = SessionLedger::new();
    ledger.start(1, Ok(3), 0).unwrap();
    let (plan, reflection) = ledger.plan_force_pause("idle", 900).unwrap();
    assert_eq!(reflection.notes.as_deref(), Some("Auto pause: idle"));
    assert!(reflection.practiced.is_none());
    assert_eq!(plan.duration_minutes, 15);
    assert_eq!(ledger.force_pause(900, Ok(())), Ok(Some(plan)));
    assert!(!ledger.is_running());
}

#[test]
fn force_pause_with_failed_write_keeps_running() {
    let mut ledger = SessionLedger::new();
    ledger.start(1, Ok(3), 0).unwrap();
    assert_eq!(
        ledger.force_pause(900, Err("busy".to_string())),
        Err(AppError::Database("busy".to_string()))
    );
    assert!(ledger.is_running());
}

#[test]
fn elapsed_never_goes_back_while_running() {
    let mut ledger = SessionLedger::new();
    ledger.start(1, Ok(1), 100).unwrap();
    let mut last = 0;
    for t in [100, 101, 150, 150, 400, 10_000] {
        let now = ledger.active_seconds(t);
        assert!(now >= last);
        last = now;
    }
}

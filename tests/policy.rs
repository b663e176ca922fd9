use masterytrack::model::{AppSettings, ExportFormat, SettingsUpdate, edited_duration};
use masterytrack::error::AppError;
use masterytrack::ledger::SessionLedger;
use masterytrack::policy::{idle_should_pause, idle_tick, is_idle, ProductivityConfig};

fn names(v: &[&str]) -> Vec<String> {
    v.iter().map(|s| s.to_string()).collect()
}

fn settings(allow: &[&str], block: &[&str]) -> AppSettings {
    let mut s = AppSettings::default();
    s.productivity_mode_enabled = true;
    s.productivity_allowlist = names(allow);
    s.productivity_blocklist = names(block);
    s
}

#[test]
fn blocked_app_pauses_the_running_session() {
    let config = ProductivityConfig::from_settings(&settings(&[], &["game.exe"]));
    let mut ledger = SessionLedger::new();
    ledger.start(1, Ok(8), 0).unwrap();
    let running = names(&["game.exe"]);
    let reason = config.tick(ledger.is_running(), Some(&running)).unwrap();
    assert!(reason.contains("game.exe"));
    let (plan, reflection) = ledger.plan_force_pause(&reason, 1200).unwrap();
    assert!(reflection.notes.unwrap().contains("game.exe"));
    assert_eq!(ledger.force_pause(1200, Ok(())), Ok(Some(plan)));
    assert!(!ledger.is_running());
}

#[test]
fn idle_timeout_pauses_only_when_reached() {
    let mut s = AppSettings::default();
    s.idle_timeout_minutes = 5;
    assert_eq!(idle_tick(&s, Some(301)).as_deref(), Some("idle"));
    assert_eq!(idle_tick(&s, Some(299)), None);
    assert_eq!(idle_tick(&s, Some(300)).as_deref(), Some("idle"));
    assert_eq!(idle_tick(&s, None), None);

    let mut ledger = SessionLedger::new();
    ledger.start(1, Ok(4), 0).unwrap();
    let reason = idle_tick(&s, Some(301)).unwrap();
    let (_, reflection) = ledger.plan_force_pause(&reason, 400).unwrap();
    assert_eq!(reflection.notes.as_deref(), Some("Auto pause: idle"));
    assert!(ledger.force_pause(400, Ok(())).unwrap().is_some());
    assert!(!ledger.is_running());
}

#[test]
fn idle_checks_respect_disabled_timeouts() {
    assert!(!idle_should_pause(0, 1_000_000));
    assert!(!idle_should_pause(-3, 1_000_000));
    assert!(idle_should_pause(1, 60));
    assert!(!idle_should_pause(i64::MAX, u64::MAX));
    assert!(is_idle(11, 10));
    assert!(!is_idle(10, 10));
}

#[test]
fn settings_lists_are_lowercased() {
    let config = ProductivityConfig::from_settings(&settings(&["Code.EXE"], &["GAME"]));
    assert!(config.enabled);
    assert_eq!(config.allowlist, names(&["code.exe"]));
    assert_eq!(config.blocklist, names(&["game"]));
}

#[test]
fn matching_is_case_insensitive_substring() {
    let config = ProductivityConfig::from_settings(&settings(&["code"], &["Steam"]));
    let v = config.evaluate(&names(&["C:\\Apps\\VSCode.exe", "steamwebhelper", "notes"]));
    assert!(v.allowed);
    assert_eq!(v.offending, names(&["steamwebhelper"]));
    let w = config.evaluate(&names(&["notes"]));
    assert!(!w.allowed);
    assert!(w.offending.is_empty());
}

#[test]
fn reasons_name_every_blocked_app_or_the_missing_focus_app() {
    let config = ProductivityConfig::from_settings(&settings(&["code"], &["game", "chat"]));
    let running = names(&["Game.exe", "code", "Chat"]);
    assert_eq!(
        config.tick(true, Some(&running)).as_deref(),
        Some("Blocked apps: Game.exe, Chat")
    );
    let idle_apps = names(&["shell"]);
    assert_eq!(config.tick(true, Some(&idle_apps)).as_deref(), Some("No focus app active"));
    let fine = names(&["code"]);
    assert_eq!(config.tick(true, Some(&fine)), None);
    assert_eq!(config.tick(false, Some(&running)), None);
    assert_eq!(config.tick(true, None), None);
}

#[test]
fn empty_allowlist_allows_anything() {
    let config = ProductivityConfig::from_settings(&settings(&[], &[]));
    assert!(config.evaluate(&names(&[])).allowed);
    assert_eq!(config.validate(&names(&["anything"])), Ok(()));
}

#[test]
fn validate_refuses_a_start_the_policy_already_fails() {
    let config = ProductivityConfig::from_settings(&settings(&["code", "IDEA"], &[]));
    assert_eq!(
        config.validate(&names(&["shell"])),
        Err("Focus app not detected. Open one of: code, idea".to_string())
    );
    assert_eq!(config.validate(&names(&["/opt/Idea/bin/idea"])), Ok(()));
    let mut off = settings(&["code"], &[]);
    off.productivity_mode_enabled = false;
    let config_off = ProductivityConfig::from_settings(&off);
    assert_eq!(config_off.validate(&names(&["shell"])), Ok(()));
    assert_eq!(config_off.tick(true, Some(&names(&["shell"]))), None);
}

#[test]
fn settings_updates_clamp_goal_and_timeout() {
    let base = AppSettings::default();
    assert_eq!(base.target_skill_name, "Deep Work");
    assert_eq!(base.daily_goal_minutes, 120);
    assert_eq!(base.idle_timeout_minutes, 5);
    let update = SettingsUpdate {
        target_skill_name: Some("Piano".to_string()),
        daily_goal_minutes: Some(5),
        idle_timeout_minutes: Some(0),
        productivity_mode_enabled: Some(true),
        productivity_allowlist: None,
        productivity_blocklist: Some(names(&["game"])),
        auto_backup_path: Some(Some("/backups".to_string())),
    };
    let s = base.apply_update(update);
    assert_eq!(s.target_skill_name, "Piano");
    assert_eq!(s.daily_goal_minutes, 15);
    assert_eq!(s.idle_timeout_minutes, 1);
    assert!(s.productivity_mode_enabled);
    assert!(s.productivity_allowlist.is_empty());
    assert_eq!(s.productivity_blocklist, names(&["game"]));
    assert_eq!(s.auto_backup_path.as_deref(), Some("/backups"));
    let none = SettingsUpdate {
        target_skill_name: None,
        daily_goal_minutes: Some(90),
        idle_timeout_minutes: None,
        productivity_mode_enabled: None,
        productivity_allowlist: None,
        productivity_blocklist: None,
        auto_backup_path: Some(None),
    };
    let t = s.apply_update(none);
    assert_eq!(t.daily_goal_minutes, 90);
    assert_eq!(t.idle_timeout_minutes, 1);
    assert_eq!(t.auto_backup_path, None);
}

#[test]
fn export_formats_parse_and_name_their_extension() {
    assert_eq!(ExportFormat::Csv.file_extension(), "csv");
    assert_eq!(ExportFormat::Json.file_extension(), "json");
    assert_eq!(ExportFormat::parse("CSV"), Ok(ExportFormat::Csv));
    assert_eq!(ExportFormat::parse("json"), Ok(ExportFormat::Json));
    assert_eq!(ExportFormat::parse("xml"), Err(AppError::UnsupportedExportFormat));
}

#[test]
fn edits_rederive_the_duration() {
    assert_eq!(edited_duration(0, 3600), Ok(60));
    assert_eq!(edited_duration(0, 30), Ok(1));
    assert_eq!(edited_duration(0, 119), Ok(1));
    let refused = Err(AppError::Custom("End time must be after start time".to_string()));
    assert_eq!(edited_duration(100, 100), refused);
    assert_eq!(edited_duration(100, 50), refused);
}

#[test]
fn validate_names_the_first_blocked_pattern() {
    let config = ProductivityConfig::from_settings(&settings(&[], &["game.exe"]));
    assert_eq!(
        config.validate(&names(&["/usr/games/game.exe"])),
        Err("Blocked app running (game.exe). Close it to keep tracking.".to_string())
    );
    let two = ProductivityConfig::from_settings(&settings(&[], &["chat", "Steam"]));
    assert_eq!(
        two.validate(&names(&["/usr/bin/STEAM", "/usr/bin/chatty"])),
        Err("Blocked app running (chat). Close it to keep tracking.".to_string())
    );
    assert_eq!(two.validate(&names(&["/usr/bin/editor"])), Ok(()));
}

#[test]
fn validate_tests_the_allowlist_before_the_blocklist() {
    let config = ProductivityConfig::from_settings(&settings(&["code"], &["game"]));
    assert_eq!(
        config.validate(&names(&["game"])),
        Err("Focus app not detected. Open one of: code".to_string())
    );
    assert_eq!(
        config.validate(&names(&["code", "game"])),
        Err("Blocked app running (game). Close it to keep tracking.".to_string())
    );
}

#[test]
fn lowered_entry_points_match_names_as_given() {
    let config = ProductivityConfig {
        enabled: true,
        allowlist: names(&["code"]),
        blocklist: names(&["game"]),
    };
    let lowered = names(&["vscode", "mygame"]);
    let running = names(&["VSCode", "MyGame"]);
    let v = config.evaluate_lowered(&running, &lowered);
    assert!(v.allowed);
    assert_eq!(v.offending, names(&["MyGame"]));
    assert_eq!(
        config.validate_lowered(&names(&["vscode", "mygame"])),
        Err("Blocked app running (game). Close it to keep tracking.".to_string())
    );
    assert_eq!(
        config.validate_lowered(&names(&["VSCODE"])),
        Err("Focus app not detected. Open one of: code".to_string())
    );
}

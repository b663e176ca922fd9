use vstd::prelude::*;
use crate::error::AppError;
use crate::policy::{lower_of, lowercase};

verus! {

/// Free-text reflection written onto a session when it is finalized.
#[derive(Debug, Clone)]
pub struct ReflectionInput {
    pub practiced: Option<String>,
    pub learned: Option<String>,
    pub next_focus: Option<String>,
    pub notes: Option<String>,
}

/// The configuration singleton.
#[derive(Debug, Clone)]
pub struct AppSettings {
    pub id: i64,
    pub target_skill_name: String,
    pub skill_id: i64,
    pub daily_goal_minutes: i64,
    pub idle_timeout_minutes: i64,
    pub productivity_mode_enabled: bool,
    pub productivity_allowlist: Vec<String>,
    pub productivity_blocklist: Vec<String>,
    pub auto_backup_path: Option<String>,
}

impl Default for AppSettings {
    fn default() -> (r: AppSettings)
        ensures
            r.id == 1,
            r.target_skill_name@ == "Deep Work"@,
            r.skill_id == 1,
            r.daily_goal_minutes == 120,
            r.idle_timeout_minutes == 5,
            !r.productivity_mode_enabled,
            r.productivity_allowlist@.len() == 0,
            r.productivity_blocklist@.len() == 0,
            r.auto_backup_path is None,
    {
        proof {
            reveal_strlit("Deep Work");
        }
        AppSettings {
            id: 1,
            target_skill_name: String::from_str("Deep Work"),
            skill_id: 1,
            daily_goal_minutes: 120,
            idle_timeout_minutes: 5,
            productivity_mode_enabled: false,
            productivity_allowlist: Vec::new(),
            productivity_blocklist: Vec::new(),
            auto_backup_path: None,
        }
    }
}

/// The smallest daily goal a settings update may set, in minutes.
pub const MIN_DAILY_GOAL_MINUTES: i64 = 15;

/// The smallest idle timeout a settings update may set, in minutes.
pub const MIN_IDLE_TIMEOUT_MINUTES: i64 = 1;

/// A partial change to the settings: each present field replaces its
/// counterpart.
#[derive(Debug, Clone)]
pub struct SettingsUpdate {
    pub target_skill_name: Option<String>,
    pub daily_goal_minutes: Option<i64>,
    pub idle_timeout_minutes: Option<i64>,
    pub productivity_mode_enabled: Option<bool>,
    pub productivity_allowlist: Option<Vec<String>>,
    pub productivity_blocklist: Option<Vec<String>>,
    pub auto_backup_path: Option<Option<String>>,
}

pub open spec fn at_least(x: i64, floor: i64) -> i64 {
    if x < floor { floor } else { x }
}

impl AppSettings {
    /// Idle timeout and daily goal are positive.
    pub open spec fn well_formed(&self) -> bool {
        self.daily_goal_minutes >= 1 && self.idle_timeout_minutes >= 1
    }

    /// These settings with `update` applied. A daily goal is raised to at
    /// least `MIN_DAILY_GOAL_MINUTES` and an idle timeout to at least
    /// `MIN_IDLE_TIMEOUT_MINUTES`; identifiers and skill are kept.
    pub fn apply_update(self, update: SettingsUpdate) -> (r: AppSettings)
        ensures
            r.id == self.id,
            r.skill_id == self.skill_id,
            r.target_skill_name == match update.target_skill_name {
                Some(n) => n,
                None => self.target_skill_name,
            },
            r.daily_goal_minutes == match update.daily_goal_minutes {
                Some(g) => at_least(g, MIN_DAILY_GOAL_MINUTES),
                None => self.daily_goal_minutes,
            },
            r.idle_timeout_minutes == match update.idle_timeout_minutes {
                Some(t) => at_least(t, MIN_IDLE_TIMEOUT_MINUTES),
                None => self.idle_timeout_minutes,
            },
            r.productivity_mode_enabled == match update.productivity_mode_enabled {
                Some(f) => f,
                None => self.productivity_mode_enabled,
            },
            r.productivity_allowlist == match update.productivity_allowlist {
                Some(l) => l,
                None => self.productivity_allowlist,
            },
            r.productivity_blocklist == match update.productivity_blocklist {
                Some(l) => l,
                None => self.productivity_blocklist,
            },
            r.auto_backup_path == match update.auto_backup_path {
                Some(p) => p,
                None => self.auto_backup_path,
            },
            self.well_formed() ==> r.well_formed(),
    {
        let mut current = self;
        if let Some(name) = update.target_skill_name {
            current.target_skill_name = name;
        }
        if let Some(goal) = update.daily_goal_minutes {
            current.daily_goal_minutes = if goal < MIN_DAILY_GOAL_MINUTES {
                MIN_DAILY_GOAL_MINUTES
            } else {
                goal
            };
        }
        if let Some(timeout) = update.idle_timeout_minutes {
            current.idle_timeout_minutes = if timeout < MIN_IDLE_TIMEOUT_MINUTES {
                MIN_IDLE_TIMEOUT_MINUTES
            } else {
                timeout
            };
        }
        if let Some(flag) = update.productivity_mode_enabled {
            current.productivity_mode_enabled = flag;
        }
        if let Some(allow) = update.productivity_allowlist {
            current.productivity_allowlist = allow;
        }
        if let Some(block) = update.productivity_blocklist {
            current.productivity_blocklist = block;
        }
        if let Some(path) = update.auto_backup_path {
            current.auto_backup_path = path;
        }
        current
    }
}

/// A stored session. Instants are seconds since the Unix epoch.
#[derive(Debug, Clone)]
pub struct Session {
    pub id: i64,
    pub skill_id: i64,
    pub start_time: i64,
    pub end_time: Option<i64>,
    pub duration_minutes: Option<i64>,
    pub reflection_text: Option<String>,
}

impl Session {
    /// An end is recorded exactly when the session is finalized, and then it
    /// lies after the start and the duration is not negative.
    pub open spec fn well_formed(&self) -> bool {
        &&& self.end_time is Some <==> self.duration_minutes is Some
        &&& self.end_time matches Some(e) ==> e > self.start_time
        &&& self.duration_minutes matches Some(d) ==> d >= 0
    }
}

/// The skill that sessions are practice of.
#[derive(Debug, Clone)]
pub struct Skill {
    pub id: i64,
    pub skill_name: String,
    pub created_at: i64,
}

/// The smaller settings record of the single-skill tracker.
#[derive(Debug, Clone)]
pub struct Settings {
    pub id: i64,
    pub daily_goal_minutes: i64,
    pub idle_timeout_minutes: i64,
    pub productivity_mode_enabled: bool,
    /// "light" or "dark".
    pub theme: String,
}

/// The settings as one storage row holds them: flags as integers, lists as
/// JSON text.
#[derive(Debug, Clone)]
pub struct SettingsRow {
    pub id: i64,
    pub skill_name: String,
    pub daily_goal_minutes: i64,
    pub idle_timeout_minutes: i64,
    pub productivity_mode_enabled: i64,
    pub allowed_apps: String,
    pub blocked_apps: String,
    pub auto_backup_path: Option<String>,
}

/// A page of the session history.
#[derive(Debug, Clone, Copy, PartialEq, Eq)]
pub struct SessionFilter {
    pub limit: i64,
    pub offset: i64,
}

/// A new skill to track.
#[derive(Debug, Clone)]
pub struct CreateSkillPayload {
    pub skill_name: String,
}

/// What the simple timer reports.
#[derive(Debug, Clone)]
pub struct TimerInfo {
    pub is_running: bool,
    pub elapsed_seconds: u64,
    pub is_paused: bool,
    pub start_time: Option<i64>,
}

/// A file format for exported history.
#[derive(Debug, Clone, Copy, PartialEq, Eq)]
pub enum ExportFormat {
    Csv,
    Json,
}

/// Exporting the history to a file.
#[derive(Debug, Clone)]
pub struct ExportPayload {
    pub path: String,
    pub format: ExportFormat,
}

/// Exporting the history into a directory, the default one when none is given.
#[derive(Debug, Clone)]
pub struct ExportRequest {
    pub format: ExportFormat,
    pub target_dir: Option<String>,
}

impl ExportFormat {
    pub open spec fn extension(&self) -> Seq<char> {
        match self {
            ExportFormat::Csv => "csv"@,
            ExportFormat::Json => "json"@,
        }
    }

    /// The file extension for this format, without the dot.
    pub fn file_extension(&self) -> (r: &str)
        ensures
            r@ == self.extension(),
    {
        proof {
            reveal_strlit("csv");
            reveal_strlit("json");
        }
        match self {
            ExportFormat::Csv => "csv",
            ExportFormat::Json => "json",
        }
    }

    /// The format that `name` names, in any letter case.
    pub fn parse(name: &str) -> (r: Result<ExportFormat, AppError>)
        ensures
            lower_of(name@) == "csv"@ ==> r == Ok::<ExportFormat, AppError>(ExportFormat::Csv),
            lower_of(name@) == "json"@ ==> r == Ok::<ExportFormat, AppError>(ExportFormat::Json),
            lower_of(name@) != "csv"@ && lower_of(name@) != "json"@ ==> r == Err::<
                ExportFormat,
                AppError,
            >(AppError::UnsupportedExportFormat),
    {
        let l = lowercase(name);
        let csv = String::from_str("csv");
        let json = String::from_str("json");
        proof {
            reveal_strlit("csv");
            reveal_strlit("json");
            assert("csv"@.len() != "json"@.len());
        }
        if l == csv {
            Ok(ExportFormat::Csv)
        } else if l == json {
            Ok(ExportFormat::Json)
        } else {
            Err(AppError::UnsupportedExportFormat)
        }
    }
}

/// The duration an edit records for a session moved to `start..end`: whole
/// minutes, at least one.
pub open spec fn edited_minutes(start: int, end: int) -> int {
    if (end - start) / 60 < 1 { 1 } else { (end - start) / 60 }
}

/// `r` is the refusal of an edit whose end is not after its start.
pub open spec fn edit_refused(r: Result<i64, AppError>) -> bool {
    r matches Err(AppError::Custom(m)) && m@ == "End time must be after start time"@
}

/// The duration for a session edited to run from `start` to `end`; an end
/// that is not after the start is refused.
pub fn edited_duration(start: i64, end: i64) -> (r: Result<i64, AppError>)
    ensures
        end <= start ==> edit_refused(r),
        end > start ==> r == Ok::<i64, AppError>(edited_minutes(start as int, end as int) as i64),
{
    if end <= start {
        proof {
            reveal_strlit("End time must be after start time");
        }
        return Err(AppError::Custom(String::from_str("End time must be after start time")));
    }
    let span: i128 = end as i128 - start as i128;
    let minutes: i128 = span / 60;
    if minutes < 1 {
        Ok(1)
    } else {
        Ok(minutes as i64)
    }
}

} // verus!

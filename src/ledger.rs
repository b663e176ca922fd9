//! The session ledger: the one slot that holds the active session.
//!
//! Storage is not done here. A caller holding the ledger's lock asks the
//! ledger what to write (`plan_stop`, `plan_force_pause`), writes it, and hands
//! the outcome of the write back to the transition (`start`, `stop`,
//! `force_pause`), which only moves when the write succeeded.
//!
//! Every transition takes `&mut self`, so callers sharing one ledger across
//! tasks hold it behind a single lock for the whole plan-write-transition
//! sequence; each transition is then atomic on the slot.
use vstd::prelude::*;
use crate::error::AppError;
use crate::model::ReflectionInput;

verus! {

pub open spec fn max0(x: int) -> int {
    if x > 0 { x } else { 0 }
}

/// The live counterpart of the one session being tracked.
#[derive(Debug)]
pub struct ActiveSession {
    pub session_id: i64,
    pub skill_id: i64,
    /// Seconds since the Unix epoch.
    pub started_at: i64,
    pub last_resume_at: i64,
    /// Time banked across pause/resume cycles.
    pub accumulated_seconds: i64,
    pub auto_paused: bool,
    pub last_reason: Option<String>,
}

/// What `status` reports.
#[derive(Debug)]
pub struct TimerStatus {
    pub running: bool,
    pub started_at: Option<i64>,
    pub elapsed_seconds: i64,
    pub auto_paused: bool,
    pub last_reason: Option<String>,
}

/// What a successful `start` returns.
#[derive(Debug, Clone, Copy, PartialEq, Eq)]
pub struct StartTimerResponse {
    pub session_id: i64,
    pub started_at: i64,
}

/// The values written onto the open session row when it is finalized.
#[derive(Debug, Clone, Copy, PartialEq, Eq)]
pub struct Finalization {
    pub session_id: i64,
    pub ended_at: i64,
    pub duration_minutes: i64,
}

/// Recorded duration of `elapsed` seconds: whole minutes, at least one.
pub open spec fn duration_for(elapsed: int) -> int {
    if elapsed < 60 { 1 } else { elapsed / 60 }
}

impl ActiveSession {
    /// Seconds of practice counted at instant `now`.
    pub open spec fn elapsed_at(&self, now: int) -> int {
        self.accumulated_seconds + max0(now - self.last_resume_at)
    }

    /// Banked time never exceeds the time since the start, and no instant
    /// lies before the epoch.
    pub open spec fn well_formed(&self) -> bool {
        &&& 0 <= self.started_at <= self.last_resume_at
        &&& 0 <= self.accumulated_seconds <= self.last_resume_at - self.started_at
    }

    pub open spec fn elapsed_fits(&self, now: int) -> bool {
        i64::MIN <= self.elapsed_at(now) <= i64::MAX
    }

    pub fn elapsed_seconds(&self, now: i64) -> (r: i64)
        requires
            self.elapsed_fits(now as int),
        ensures
            r == self.elapsed_at(now as int),
    {
        let span: i128 = now as i128 - self.last_resume_at as i128;
        let counted: i128 = if span > 0 { span } else { 0 };
        (self.accumulated_seconds as i128 + counted) as i64
    }

    pub fn as_status(&self, now: i64) -> (r: TimerStatus)
        requires
            self.elapsed_fits(now as int),
        ensures
            r.running == !self.auto_paused,
            r.started_at == Some(self.started_at),
            r.elapsed_seconds == self.elapsed_at(now as int),
            r.auto_paused == self.auto_paused,
            r.last_reason == self.last_reason,
    {
        TimerStatus {
            running: !self.auto_paused,
            started_at: Some(self.started_at),
            elapsed_seconds: self.elapsed_seconds(now),
            auto_paused: self.auto_paused,
            last_reason: copy_text(&self.last_reason),
        }
    }
}

fn copy_text(t: &Option<String>) -> (r: Option<String>)
    ensures
        r == *t,
{
    match t {
        Some(s) => Some(s.clone()),
        None => None,
    }
}

proof fn lemma_well_formed_elapsed_fits(a: ActiveSession, now: int)
    requires
        a.well_formed(),
        now <= i64::MAX,
    ensures
        a.elapsed_fits(now),
        0 <= a.elapsed_at(now),
{
}

/// The session that a successful start opens.
pub open spec fn opened_session(session_id: i64, skill_id: i64, now: i64) -> ActiveSession {
    ActiveSession {
        session_id,
        skill_id,
        started_at: now,
        last_resume_at: now,
        accumulated_seconds: 0,
        auto_paused: false,
        last_reason: None,
    }
}

pub open spec fn finalization_of(a: ActiveSession, now: i64) -> Finalization {
    Finalization {
        session_id: a.session_id,
        ended_at: now,
        duration_minutes: duration_for(a.elapsed_at(now as int)) as i64,
    }
}

pub open spec fn slot_ok(s: Option<ActiveSession>) -> bool {
    s matches Some(a) ==> a.well_formed()
}

/// `start` on slot `s`, given the outcome of writing the open session row:
/// the next slot and the result.
pub open spec fn start_step(
    s: Option<ActiveSession>,
    skill_id: i64,
    opened: Result<i64, String>,
    now: i64,
) -> (Option<ActiveSession>, Result<StartTimerResponse, AppError>) {
    match s {
        Some(a) => (s, Err(AppError::TimerAlreadyRunning)),
        None => match opened {
            Err(e) => (None, Err(AppError::Database(e))),
            Ok(id) => (
                Some(opened_session(id, skill_id, now)),
                Ok(StartTimerResponse { session_id: id, started_at: now }),
            ),
        },
    }
}

/// `stop` on slot `s` at `now`, given the outcome of writing the
/// finalization: the next slot and the result.
pub open spec fn stop_step(s: Option<ActiveSession>, now: i64, written: Result<(), String>) -> (
    Option<ActiveSession>,
    Result<Finalization, AppError>,
) {
    match s {
        None => (None, Err(AppError::TimerNotRunning)),
        Some(a) => match written {
            Err(e) => (s, Err(AppError::Database(e))),
            Ok(_) => (None, Ok(finalization_of(a, now))),
        },
    }
}

/// `force_pause` on slot `s`: like `stop`, but with no error when idle.
pub open spec fn force_pause_step(
    s: Option<ActiveSession>,
    now: i64,
    written: Result<(), String>,
) -> (Option<ActiveSession>, Result<Option<Finalization>, AppError>) {
    match s {
        None => (None, Ok(None)),
        Some(a) => match written {
            Err(e) => (s, Err(AppError::Database(e))),
            Ok(_) => (None, Ok(Some(finalization_of(a, now)))),
        },
    }
}

/// The note written onto a session that a policy ended.
pub open spec fn auto_pause_note(reason: Seq<char>) -> Seq<char> {
    "Auto pause: "@ + reason
}

/// `p` finalizes `a` at `now` with a reflection that holds only the note
/// for `reason`.
pub open spec fn pause_planned(
    p: Option<(Finalization, ReflectionInput)>,
    a: ActiveSession,
    now: i64,
    reason: Seq<char>,
) -> bool {
    match p {
        None => false,
        Some((f, refl)) => {
            &&& f == finalization_of(a, now)
            &&& refl.practiced is None
            &&& refl.learned is None
            &&& refl.next_focus is None
            &&& refl.notes matches Some(n) && n@ == auto_pause_note(reason)
        },
    }
}

/// Owner of the single active-session slot.
pub struct SessionLedger {
    active: Option<ActiveSession>,
}

impl View for SessionLedger {
    type V = Option<ActiveSession>;

    closed spec fn view(&self) -> Option<ActiveSession> {
        self.active
    }
}

impl SessionLedger {
    pub open spec fn inv(&self) -> bool {
        slot_ok(self@)
    }

    pub fn new() -> (r: SessionLedger)
        ensures
            r@ is None,
            r.inv(),
    {
        SessionLedger { active: None }
    }

    pub fn is_running(&self) -> (r: bool)
        ensures
            r == self@ is Some,
    {
        self.active.is_some()
    }

    /// Decides whether a session may start, before its row is written:
    /// `verdict` is the productivity policy's answer at this instant.
    pub fn admit_start(&self, verdict: Result<(), String>) -> (r: Result<(), AppError>)
        ensures
            self@ is Some ==> r == Err::<(), AppError>(AppError::TimerAlreadyRunning),
            self@ is None ==> r == match verdict {
                Ok(_) => Ok::<(), AppError>(()),
                Err(m) => Err(AppError::PolicyViolation(m)),
            },
    {
        if self.active.is_some() {
            return Err(AppError::TimerAlreadyRunning);
        }
        match verdict {
            Ok(_) => Ok(()),
            Err(m) => Err(AppError::PolicyViolation(m)),
        }
    }

    /// Opens the active session whose row `opened` reports, unless one is
    /// running already or the write failed.
    pub fn start(&mut self, skill_id: i64, opened: Result<i64, String>, now: i64) -> (r: Result<
        StartTimerResponse,
        AppError,
    >)
        requires
            old(self).inv(),
            now >= 0,
        ensures
            final(self).inv(),
            (final(self)@, r) == start_step(old(self)@, skill_id, opened, now),
    {
        if self.active.is_some() {
            return Err(AppError::TimerAlreadyRunning);
        }
        match opened {
            Err(e) => Err(AppError::Database(e)),
            Ok(id) => {
                self.active = Some(
                    ActiveSession {
                        session_id: id,
                        skill_id,
                        started_at: now,
                        last_resume_at: now,
                        accumulated_seconds: 0,
                        auto_paused: false,
                        last_reason: None,
                    },
                );
                Ok(StartTimerResponse { session_id: id, started_at: now })
            },
        }
    }

    fn finalization(a: &ActiveSession, now: i64) -> (r: Finalization)
        requires
            a.well_formed(),
        ensures
            r == finalization_of(*a, now),
    {
        proof {
            lemma_well_formed_elapsed_fits(*a, now as int);
        }
        let elapsed = a.elapsed_seconds(now);
        let minutes: i64 = if elapsed < 60 { 1 } else { elapsed / 60 };
        Finalization { session_id: a.session_id, ended_at: now, duration_minutes: minutes }
    }

    /// What `stop(now, ..)` would write.
    pub fn plan_stop(&self, now: i64) -> (r: Result<Finalization, AppError>)
        requires
            self.inv(),
        ensures
            r == stop_step(self@, now, Ok(())).1,
    {
        match &self.active {
            None => Err(AppError::TimerNotRunning),
            Some(a) => Ok(Self::finalization(a, now)),
        }
    }

    /// Ends the active session at the user's request, once `written` reports
    /// that its finalization was stored.
    pub fn stop(&mut self, now: i64, written: Result<(), String>) -> (r: Result<
        Finalization,
        AppError,
    >)
        requires
            old(self).inv(),
        ensures
            final(self).inv(),
            (final(self)@, r) == stop_step(old(self)@, now, written),
    {
        match &self.active {
            None => Err(AppError::TimerNotRunning),
            Some(a) => match written {
                Err(e) => Err(AppError::Database(e)),
                Ok(_) => {
                    let f = Self::finalization(a, now);
                    self.active = None;
                    Ok(f)
                },
            },
        }
    }

    /// What `force_pause(now, ..)` would write: the finalization and the
    /// reflection that records `reason`; nothing when idle.
    pub fn plan_force_pause(&self, reason: &str, now: i64) -> (r: Option<
        (Finalization, ReflectionInput),
    >)
        requires
            self.inv(),
        ensures
            self@ is None ==> r is None,
            self@ matches Some(a) ==> pause_planned(r, a, now, reason@),
    {
        match &self.active {
            None => None,
            Some(a) => {
                let f = Self::finalization(a, now);
                let prefix = String::from_str("Auto pause: ");
                proof {
                    reveal_strlit("Auto pause: ");
                }
                let note = prefix.concat(reason);
                let reflection = ReflectionInput {
                    practiced: None,
                    learned: None,
                    next_focus: None,
                    notes: Some(note),
                };
                Some((f, reflection))
            },
        }
    }

    /// Ends the active session on a policy's behalf. When idle this does
    /// nothing and reports no error: a monitor may race a user's stop.
    pub fn force_pause(&mut self, now: i64, written: Result<(), String>) -> (r: Result<
        Option<Finalization>,
        AppError,
    >)
        requires
            old(self).inv(),
        ensures
            final(self).inv(),
            (final(self)@, r) == force_pause_step(old(self)@, now, written),
    {
        match &self.active {
            None => Ok(None),
            Some(a) => match written {
                Err(e) => Err(AppError::Database(e)),
                Ok(_) => {
                    let f = Self::finalization(a, now);
                    self.active = None;
                    Ok(Some(f))
                },
            },
        }
    }

    /// Reads the slot without changing it; elapsed time is computed at `now`.
    pub fn status(&self, now: i64) -> (r: TimerStatus)
        requires
            self.inv(),
        ensures
            self@ is None ==> !r.running && r.started_at is None && r.elapsed_seconds == 0
                && !r.auto_paused && r.last_reason is None,
            self@ matches Some(a) ==> r.running == !a.auto_paused && r.started_at == Some(
                a.started_at,
            ) && r.elapsed_seconds == a.elapsed_at(now as int) && r.auto_paused
                == a.auto_paused && r.last_reason == a.last_reason,
    {
        match &self.active {
            None => TimerStatus {
                running: false,
                started_at: None,
                elapsed_seconds: 0,
                auto_paused: false,
                last_reason: None,
            },
            Some(a) => {
                proof {
                    lemma_well_formed_elapsed_fits(*a, now as int);
                }
                a.as_status(now)
            },
        }
    }

    /// Seconds counted so far in the active session, zero when idle.
    pub fn active_seconds(&self, now: i64) -> (r: i64)
        requires
            self.inv(),
        ensures
            r == active_seconds_at(self@, now as int),
    {
        match &self.active {
            None => 0,
            Some(a) => {
                proof {
                    lemma_well_formed_elapsed_fits(*a, now as int);
                }
                a.elapsed_seconds(now)
            },
        }
    }
}

pub open spec fn active_seconds_at(s: Option<ActiveSession>, now: int) -> int {
    match s {
        None => 0,
        Some(a) => a.elapsed_at(now),
    }
}

/// A user command on the ledger, with the outcome of the write it anchors.
pub enum LedgerCommand {
    Start { skill_id: i64, opened: Result<i64, String>, now: i64 },
    Stop { now: i64, written: Result<(), String> },
}

pub open spec fn command_step(s: Option<ActiveSession>, c: LedgerCommand) -> (
    Option<ActiveSession>,
    bool,
) {
    match c {
        LedgerCommand::Start { skill_id, opened, now } => {
            let (next, r) = start_step(s, skill_id, opened, now);
            (next, r is Ok)
        },
        LedgerCommand::Stop { now, written } => {
            let (next, r) = stop_step(s, now, written);
            (next, r is Ok)
        },
    }
}

/// The slot after running `cs` from an idle ledger.
pub open spec fn replay(cs: Seq<LedgerCommand>) -> Option<ActiveSession>
    decreases cs.len(),
{
    if cs.len() == 0 {
        None
    } else {
        command_step(replay(cs.drop_last()), cs.last()).0
    }
}

/// How many commands of `cs` succeeded as starts.
pub open spec fn started_count(cs: Seq<LedgerCommand>) -> int
    decreases cs.len(),
{
    if cs.len() == 0 {
        0
    } else {
        started_count(cs.drop_last()) + if cs.last() is Start && command_step(
            replay(cs.drop_last()),
            cs.last(),
        ).1 {
            1int
        } else {
            0int
        }
    }
}

/// How many commands of `cs` succeeded as stops.
pub open spec fn stopped_count(cs: Seq<LedgerCommand>) -> int
    decreases cs.len(),
{
    if cs.len() == 0 {
        0
    } else {
        stopped_count(cs.drop_last()) + if cs.last() is Stop && command_step(
            replay(cs.drop_last()),
            cs.last(),
        ).1 {
            1int
        } else {
            0int
        }
    }
}

/// Over any run of starts and stops from an idle ledger, successful starts
/// and stops alternate: there is never more than one started session that
/// has not been stopped, and there is one exactly when the ledger is running.
pub proof fn starts_and_stops_alternate(cs: Seq<LedgerCommand>)
    ensures
        started_count(cs) == stopped_count(cs) + if replay(cs) is Some {
            1int
        } else {
            0int
        },
    decreases cs.len(),
{
    if cs.len() > 0 {
        starts_and_stops_alternate(cs.drop_last());
    }
}

/// While a session runs, the elapsed seconds read at a later instant are
/// never fewer than those read at an earlier one.
pub proof fn elapsed_never_decreases(s: Option<ActiveSession>, t1: int, t2: int)
    requires
        s is Some,
        t1 <= t2,
    ensures
        active_seconds_at(s, t1) <= active_seconds_at(s, t2),
{
}

/// A start followed by a stop, at any later instant or the same one, records
/// the opened session with a duration of at least one minute and leaves the
/// ledger idle.
pub proof fn start_then_stop_records_a_minute(
    skill_id: i64,
    session_id: i64,
    started: i64,
    stopped: i64,
)
    requires
        0 <= started <= stopped,
    ensures
        ({
            let (s1, r1) = start_step(None, skill_id, Ok(session_id), started);
            let (s2, r2) = stop_step(s1, stopped, Ok(()));
            &&& r1 is Ok
            &&& s2 is None
            &&& r2 matches Ok(f) && f.session_id == session_id && f.ended_at == stopped
                && f.duration_minutes >= 1
        }),
{
    let a = opened_session(session_id, skill_id, started);
    lemma_well_formed_elapsed_fits(a, stopped as int);
    assert(0 <= a.elapsed_at(stopped as int) <= i64::MAX);
    let d = duration_for(a.elapsed_at(stopped as int));
    assert(1 <= d <= i64::MAX) by (nonlinear_arith)
        requires
            d == duration_for(a.elapsed_at(stopped as int)),
            0 <= a.elapsed_at(stopped as int) <= i64::MAX,
    ;
}

} // verus!

//! The policies that may end a running session: idle time and productivity
//! mode. Each takes what the environment reported as plain values and
//! decides; the caller reads the environment and acts on the decision.
use vstd::prelude::*;
use crate::model::AppSettings;

verus! {

/// What `str::to_lowercase` makes of a string.
pub uninterp spec fn lower_of(s: Seq<char>) -> Seq<char>;

/// Relies on `str::to_lowercase`: the result depends on the characters alone.
#[verifier::external_body]
pub(crate) fn lowercase(s: &str) -> (r: String)
    ensures
        r@ == lower_of(s@),
{
    s.to_lowercase()
}

/// `needle` occurs in `hay` as a run of consecutive characters.
pub open spec fn contains_text(hay: Seq<char>, needle: Seq<char>) -> bool {
    exists|i: int|
        0 <= i && i + needle.len() <= hay.len() && #[trigger] hay.subrange(i, i + needle.len())
            == needle
}

/// Relies on `str::contains` with a `&str` pattern: whether `needle` occurs
/// in `hay`. Both are valid UTF-8, so a byte match is a character match.
#[verifier::external_body]
fn contains(hay: &str, needle: &str) -> (r: bool)
    ensures
        r == contains_text(hay@, needle@),
{
    hay.contains(needle)
}

/// Idle time at which a running session is paused: `timeout_minutes` whole
/// minutes; a timeout that is not positive turns the check off.
pub open spec fn idle_exceeded(timeout_minutes: int, idle_seconds: int) -> bool {
    timeout_minutes > 0 && idle_seconds >= timeout_minutes * 60
}

/// Whether `idle_seconds` without input reaches the idle timeout.
pub fn idle_should_pause(timeout_minutes: i64, idle_seconds: u64) -> (r: bool)
    ensures
        r == idle_exceeded(timeout_minutes as int, idle_seconds as int),
{
    timeout_minutes > 0 && idle_seconds as i128 >= timeout_minutes as i128 * 60
}

/// Whether `idle_seconds` without input exceeds `threshold_seconds`.
pub fn is_idle(idle_seconds: u64, threshold_seconds: u64) -> (r: bool)
    ensures
        r == (idle_seconds > threshold_seconds),
{
    idle_seconds > threshold_seconds
}

/// The reason recorded when the idle policy pauses a session.
pub open spec fn idle_reason() -> Seq<char> {
    "idle"@
}

/// One tick of the idle monitor. `probe` is the idle time the environment
/// reported, `None` when it could not be read: an inconclusive tick never
/// pauses. Returns the reason to force a pause with, if one is due.
pub fn idle_tick(settings: &AppSettings, probe: Option<u64>) -> (r: Option<String>)
    ensures
        r is Some <==> (probe matches Some(idle) && idle_exceeded(
            settings.idle_timeout_minutes as int,
            idle as int,
        )),
        r matches Some(reason) ==> reason@ == idle_reason(),
{
    match probe {
        None => None,
        Some(idle) => {
            if idle_should_pause(settings.idle_timeout_minutes, idle) {
                proof {
                    reveal_strlit("idle");
                }
                Some(String::from_str("idle"))
            } else {
                None
            }
        },
    }
}

/// The views of a list of strings.
pub open spec fn texts(v: Seq<String>) -> Seq<Seq<char>> {
    v.map_values(|s: String| s@)
}

/// The lowercased view of each string.
pub open spec fn lowered(v: Seq<String>) -> Seq<Seq<char>> {
    v.map_values(|s: String| lower_of(s@))
}

/// Productivity policy, with its application identifiers lowercased.
#[derive(Debug, Clone)]
pub struct ProductivityConfig {
    pub enabled: bool,
    pub allowlist: Vec<String>,
    pub blocklist: Vec<String>,
}

fn lowercase_all(v: &Vec<String>) -> (r: Vec<String>)
    ensures
        texts(r@) == lowered(v@),
{
    let mut out: Vec<String> = Vec::new();
    let mut i: usize = 0;
    while i < v.len()
        invariant
            i <= v@.len(),
            texts(out@) == lowered(v@.take(i as int)),
        decreases v@.len() - i,
    {
        let l = lowercase(v[i].as_str());
        proof {
            assert(texts(out@.push(l)) =~= texts(out@).push(l@));
            assert(lowered(v@.take(i + 1)) =~= lowered(v@.take(i as int)).push(lower_of(v@[i as int]@)));
        }
        out.push(l);
        i = i + 1;
    }
    assert(v@.take(v@.len() as int) =~= v@);
    out
}

/// Some pattern of `pats` occurs in `name`.
pub open spec fn matches_some(name: Seq<char>, pats: Seq<Seq<char>>) -> bool {
    exists|i: int| 0 <= i < pats.len() && #[trigger] contains_text(name, pats[i])
}

/// Some name holds an allowlisted pattern; or there is no allowlist.
pub open spec fn focus_allowed(names: Seq<Seq<char>>, allow: Seq<Seq<char>>) -> bool {
    allow.len() == 0 || exists|j: int| 0 <= j < names.len() && #[trigger] matches_some(names[j], allow)
}

/// The identifiers of `running`, as given, whose lowercased counterpart in
/// `names` holds a blocklisted pattern, in their order.
pub open spec fn offenders(running: Seq<Seq<char>>, names: Seq<Seq<char>>, block: Seq<Seq<char>>) -> Seq<
    Seq<char>,
>
    decreases running.len(),
{
    if running.len() == 0 {
        Seq::empty()
    } else if matches_some(names[running.len() - 1], block) {
        offenders(running.drop_last(), names, block).push(running.last())
    } else {
        offenders(running.drop_last(), names, block)
    }
}

/// Some name holds `pat`.
pub open spec fn held_by_some(names: Seq<Seq<char>>, pat: Seq<char>) -> bool {
    exists|j: int| 0 <= j < names.len() && #[trigger] contains_text(names[j], pat)
}

/// The first pattern of `block`, from index `i` on, that some name holds.
pub open spec fn first_blocked(names: Seq<Seq<char>>, block: Seq<Seq<char>>, i: int) -> Option<
    Seq<char>,
>
    decreases block.len() - i,
{
    if 0 <= i < block.len() {
        if held_by_some(names, block[i]) {
            Some(block[i])
        } else {
            first_blocked(names, block, i + 1)
        }
    } else {
        None
    }
}

/// Why a session may not start under productivity mode, if it may not: a
/// missing focus application first, naming the allowlist, then the first
/// blocklisted pattern that a running application holds.
pub open spec fn start_refusal(names: Seq<Seq<char>>, allow: Seq<Seq<char>>, block: Seq<Seq<char>>) -> Option<
    Seq<char>,
> {
    if !focus_allowed(names, allow) {
        Some("Focus app not detected. Open one of: "@ + joined(allow, ", "@))
    } else {
        match first_blocked(names, block, 0) {
            Some(b) => Some("Blocked app running ("@ + b + "). Close it to keep tracking."@),
            None => None,
        }
    }
}

/// What productivity mode makes of the running applications.
#[derive(Debug, Clone)]
pub struct ProductivityVerdict {
    /// An allowlisted application runs, or there is no allowlist.
    pub allowed: bool,
    /// The running applications that the blocklist names.
    pub offending: Vec<String>,
}

/// Whether some pattern of `pats` occurs in `name`.
fn matches_any(name: &str, pats: &Vec<String>) -> (r: bool)
    ensures
        r == matches_some(name@, texts(pats@)),
{
    let mut i: usize = 0;
    while i < pats.len()
        invariant
            i <= pats@.len(),
            forall|k: int| 0 <= k < i ==> !contains_text(name@, #[trigger] texts(pats@)[k]),
        decreases pats@.len() - i,
    {
        if contains(name, pats[i].as_str()) {
            assert(contains_text(name@, texts(pats@)[i as int]));
            return true;
        }
        i = i + 1;
    }
    false
}

/// `names` joined with `sep` between neighbours.
pub open spec fn joined(names: Seq<Seq<char>>, sep: Seq<char>) -> Seq<char>
    decreases names.len(),
{
    if names.len() == 0 {
        Seq::empty()
    } else if names.len() == 1 {
        names[0]
    } else {
        joined(names.drop_last(), sep) + sep + names.last()
    }
}

fn join_names(names: &Vec<String>, sep: &str) -> (r: String)
    ensures
        r@ == joined(texts(names@), sep@),
{
    let mut out = String::new();
    let mut i: usize = 0;
    while i < names.len()
        invariant
            i <= names@.len(),
            out@ == joined(texts(names@.take(i as int)), sep@),
        decreases names@.len() - i,
    {
        proof {
            assert(texts(names@.take(i + 1)).drop_last() =~= texts(names@.take(i as int)));
            assert(texts(names@.take(i + 1)).last() == names@[i as int]@);
        }
        if i > 0 {
            out.append(sep);
        }
        out.append(names[i].as_str());
        i = i + 1;
    }
    assert(names@.take(names@.len() as int) =~= names@);
    out
}

/// The reason for pausing under productivity mode, if there is one:
/// blocked applications first, by name, then a missing focus application.
pub open spec fn productivity_reason(allowed: bool, offending: Seq<Seq<char>>) -> Option<
    Seq<char>,
> {
    if offending.len() > 0 {
        Some("Blocked apps: "@ + joined(offending, ", "@))
    } else if !allowed {
        Some("No focus app active"@)
    } else {
        None
    }
}

impl ProductivityConfig {
    /// The policy that `settings` configure, its identifiers lowercased.
    pub fn from_settings(settings: &AppSettings) -> (r: ProductivityConfig)
        ensures
            r.enabled == settings.productivity_mode_enabled,
            texts(r.allowlist@) == lowered(settings.productivity_allowlist@),
            texts(r.blocklist@) == lowered(settings.productivity_blocklist@),
    {
        ProductivityConfig {
            enabled: settings.productivity_mode_enabled,
            allowlist: lowercase_all(&settings.productivity_allowlist),
            blocklist: lowercase_all(&settings.productivity_blocklist),
        }
    }

    /// Matches the running application identifiers against both lists.
    /// `names` holds the identifiers of `running`, lowercased, in the same
    /// order; a pattern matches a name that holds it.
    pub fn evaluate_lowered(&self, running: &Vec<String>, names: &Vec<String>) -> (r: ProductivityVerdict)
        requires
            running@.len() == names@.len(),
        ensures
            r.allowed == focus_allowed(texts(names@), texts(self.allowlist@)),
            texts(r.offending@) == offenders(texts(running@), texts(names@), texts(self.blocklist@)),
    {
        let ghost allow = texts(self.allowlist@);
        let ghost block = texts(self.blocklist@);
        let ghost all = texts(names@);
        let allow_empty = self.allowlist.len() == 0;
        let mut allowed = allow_empty;
        let mut offending: Vec<String> = Vec::new();
        let mut j: usize = 0;
        while j < running.len()
            invariant
                j <= running@.len(),
                running@.len() == names@.len(),
                allow == texts(self.allowlist@),
                block == texts(self.blocklist@),
                all == texts(names@),
                allow_empty == (self.allowlist@.len() == 0),
                allowed == focus_allowed(all.take(j as int), allow),
                texts(offending@) == offenders(texts(running@).take(j as int), all, block),
            decreases running@.len() - j,
        {
            let hit_allow = matches_any(names[j].as_str(), &self.allowlist);
            let hit_block = matches_any(names[j].as_str(), &self.blocklist);
            let ghost prev = all.take(j as int);
            let ghost next = all.take(j + 1);
            proof {
                assert(texts(running@).take(j + 1).drop_last() =~= texts(running@).take(j as int));
                if hit_allow {
                    assert(matches_some(next[j as int], allow));
                }
                if focus_allowed(next, allow) && !allow_empty {
                    let jj = choose|jj: int| 0 <= jj < next.len() && #[trigger] matches_some(next[jj], allow);
                    if jj < j {
                        assert(prev[jj] == next[jj]);
                    }
                }
                if focus_allowed(prev, allow) && !allow_empty {
                    let jj = choose|jj: int| 0 <= jj < prev.len() && #[trigger] matches_some(prev[jj], allow);
                    assert(prev[jj] == next[jj]);
                }
            }
            if hit_allow {
                allowed = true;
            }
            if hit_block {
                let kept = running[j].clone();
                proof {
                    assert(texts(offending@.push(kept)) =~= texts(offending@).push(kept@));
                }
                offending.push(kept);
            }
            j = j + 1;
        }
        assert(texts(running@).take(running@.len() as int) =~= texts(running@));
        assert(all.take(running@.len() as int) =~= all);
        ProductivityVerdict { allowed, offending }
    }

    /// Matches the running application identifiers against both lists,
    /// case-insensitively and by substring.
    pub fn evaluate(&self, running: &Vec<String>) -> (r: ProductivityVerdict)
        ensures
            r.allowed == focus_allowed(lowered(running@), texts(self.allowlist@)),
            texts(r.offending@) == offenders(texts(running@), lowered(running@), texts(self.blocklist@)),
    {
        let names = lowercase_all(running);
        proof {
            assert(names@.len() == texts(names@).len());
            assert(running@.len() == lowered(running@).len());
        }
        self.evaluate_lowered(running, &names)
    }

    /// The reason to pause for, if the verdict calls for a pause.
    pub fn pause_reason(verdict: &ProductivityVerdict) -> (r: Option<String>)
        ensures
            r is Some == productivity_reason(verdict.allowed, texts(verdict.offending@)) is Some,
            r matches Some(t) ==> Some(t@) == productivity_reason(
                verdict.allowed,
                texts(verdict.offending@),
            ),
    {
        if verdict.offending.len() > 0 {
            let head = String::from_str("Blocked apps: ");
            proof {
                reveal_strlit("Blocked apps: ");
                reveal_strlit(", ");
            }
            let names = join_names(&verdict.offending, ", ");
            Some(head.concat(names.as_str()))
        } else if !verdict.allowed {
            proof {
                reveal_strlit("No focus app active");
            }
            Some(String::from_str("No focus app active"))
        } else {
            None
        }
    }

    /// What the policy says of the running applications `apps`.
    pub open spec fn reason_for(&self, apps: Seq<String>) -> Option<Seq<char>> {
        productivity_reason(
            focus_allowed(lowered(apps), texts(self.allowlist@)),
            offenders(texts(apps), lowered(apps), texts(self.blocklist@)),
        )
    }

    /// One tick of the productivity monitor. `running` is what the
    /// environment reported, `None` when it could not be read: an
    /// inconclusive tick never pauses. Returns the reason to force a pause
    /// with, if the mode is on, a session runs and the policy fails.
    pub fn tick(&self, session_running: bool, running: Option<&Vec<String>>) -> (r: Option<String>)
        ensures
            !self.enabled || !session_running || running is None ==> r is None,
            running matches Some(apps) ==> self.enabled && session_running ==> {
                &&& r is Some == self.reason_for(apps@) is Some
                &&& r matches Some(t) ==> Some(t@) == self.reason_for(apps@)
            },
    {
        if !self.enabled || !session_running {
            return None;
        }
        match running {
            None => None,
            Some(apps) => {
                let verdict = self.evaluate(apps);
                Self::pause_reason(&verdict)
            },
        }
    }

    /// The check made before a session starts, on running identifiers that
    /// are already lowercased: the reason that refuses the start, if
    /// productivity mode is on and the policy already fails.
    pub fn validate_lowered(&self, names: &Vec<String>) -> (r: Result<(), String>)
        ensures
            !self.enabled ==> r is Ok,
            self.enabled ==> (r is Err <==> start_refusal(
                texts(names@),
                texts(self.allowlist@),
                texts(self.blocklist@),
            ) is Some),
            r matches Err(t) ==> Some(t@) == start_refusal(
                texts(names@),
                texts(self.allowlist@),
                texts(self.blocklist@),
            ),
    {
        if !self.enabled {
            return Ok(());
        }
        let focus = self.evaluate_lowered(names, names).allowed;
        if !focus {
            let head = String::from_str("Focus app not detected. Open one of: ");
            proof {
                reveal_strlit("Focus app not detected. Open one of: ");
                reveal_strlit(", ");
            }
            let listed = join_names(&self.allowlist, ", ");
            return Err(head.concat(listed.as_str()));
        }
        let ghost all = texts(names@);
        let ghost block = texts(self.blocklist@);
        let mut i: usize = 0;
        while i < self.blocklist.len()
            invariant
                i <= self.blocklist@.len(),
                all == texts(names@),
                block == texts(self.blocklist@),
                first_blocked(all, block, 0) == first_blocked(all, block, i as int),
                self.enabled,
                focus_allowed(all, texts(self.allowlist@)),
            decreases self.blocklist@.len() - i,
        {
            proof {
                assert(block[i as int] == self.blocklist@[i as int]@);
            }
            if any_holds(names, self.blocklist[i].as_str()) {
                let head = String::from_str("Blocked app running (");
                let tail = "). Close it to keep tracking.";
                proof {
                    reveal_strlit("Blocked app running (");
                    reveal_strlit("). Close it to keep tracking.");
                }
                let message = head.concat(self.blocklist[i].as_str()).concat(tail);
                return Err(message);
            }
            i = i + 1;
        }
        Ok(())
    }

    /// The check made before a session starts: the reason that refuses it,
    /// if productivity mode is on and the policy already fails. Matching is
    /// case-insensitive and by substring.
    pub fn validate(&self, running: &Vec<String>) -> (r: Result<(), String>)
        ensures
            !self.enabled ==> r is Ok,
            self.enabled ==> (r is Err <==> start_refusal(
                lowered(running@),
                texts(self.allowlist@),
                texts(self.blocklist@),
            ) is Some),
            r matches Err(t) ==> Some(t@) == start_refusal(
                lowered(running@),
                texts(self.allowlist@),
                texts(self.blocklist@),
            ),
    {
        let names = lowercase_all(running);
        self.validate_lowered(&names)
    }
}

/// Whether some name of `names` holds `pat`.
fn any_holds(names: &Vec<String>, pat: &str) -> (r: bool)
    ensures
        r == held_by_some(texts(names@), pat@),
{
    let mut j: usize = 0;
    while j < names.len()
        invariant
            j <= names@.len(),
            forall|k: int| 0 <= k < j ==> !contains_text(#[trigger] texts(names@)[k], pat@),
        decreases names@.len() - j,
    {
        if contains(names[j].as_str(), pat) {
            assert(contains_text(texts(names@)[j as int], pat@));
            return true;
        }
        j = j + 1;
    }
    false
}

} // verus!

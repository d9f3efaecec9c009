//! The account's session with the service: which remote step comes next,
//! what each answer changes, and the signed upload built once quotas are known.
use vstd::prelude::*;
use vstd::string::StringExecFns;
use vstd::utf8::encode_utf8;

use crate::digest::{digest, hex_text, login_digest, sha1_of, SALT, ENTRANCE};
use crate::error::{RunError, Step};
use crate::quota::{clamp, clamp_value, mileage_metres, parse_mileage, QuotaSnapshot};
use crate::route::{passes_in_order, path_length, replay_refusal, replay_route, synthetic_route, RoutePoint};
use crate::session::{consistent, synthesize, SessionDraft, MAX_SESSION_M, MIN_SESSION_M};
use crate::text::{i64_text, int_text, km_string, km_text};

verus! {

/// The literal flag that is signed, twice, with every upload.
pub const PART_FLAG: &'static str = "1";

/// How far the session with the service has come.
#[derive(Clone, Copy, Debug, PartialEq, Eq, Structural)]
pub enum Stage {
    Unauthenticated,
    Authenticated,
    ContextLoaded,
    VersionLoaded,
    QuotaLoaded,
    Failed(RunError),
}

/// The login answer.
#[derive(Clone, Debug)]
pub struct LoginReply {
    pub id: String,
    pub access_token: String,
    pub campus_id: String,
}

/// The quota answer; the two consumed figures arrive as decimal text in kilometres.
#[derive(Clone, Debug)]
pub struct LimitsReply {
    pub daily_m: u64,
    pub weekly_m: u64,
    pub min_effective_m: u64,
    pub max_effective_m: u64,
    pub limitation: String,
    pub scoring: i64,
    pub total_day: String,
    pub total_week: String,
}

/// What came back from the request last asked for.
pub enum Event {
    LoggedIn(LoginReply),
    Semester(String),
    Version(String),
    Limits(LimitsReply),
    /// The request failed at the HTTP layer, including a non-2xx status.
    TransportFailed,
    /// The answer did not have the expected shape.
    DecodeFailed,
}

/// The request to make next, or the end of the run.
#[derive(Debug)]
pub enum Action {
    SendLogin { username: String, password: String, sign: String },
    FetchSemester,
    FetchVersion,
    FetchLimits { semester_id: String },
    Ready,
    Abort(RunError),
}

/// Everything gathered from the service for one account.
pub struct Account {
    pub stage: Stage,
    pub id: String,
    pub token: String,
    pub organization: String,
    pub semester: String,
    pub version: String,
    pub quota: QuotaSnapshot,
}

/// The remote call that a stage waits on.
pub open spec fn step_of(s: Stage) -> Step {
    match s {
        Stage::Unauthenticated => Step::Login,
        Stage::Authenticated => Step::Semester,
        Stage::ContextLoaded => Step::Version,
        _ => Step::Limits,
    }
}

/// Whether the stage waits on an answer.
pub open spec fn waiting(s: Stage) -> bool {
    s == Stage::Unauthenticated || s == Stage::Authenticated || s == Stage::ContextLoaded || s
        == Stage::VersionLoaded
}

/// The stage after an answer.
pub open spec fn next_stage(s: Stage, e: Event) -> Stage {
    match s {
        Stage::Failed(x) => Stage::Failed(x),
        _ => match e {
            Event::LoggedIn(_) => if s == Stage::Unauthenticated {
                Stage::Authenticated
            } else {
                Stage::Failed(RunError::OutOfOrder)
            },
            Event::Semester(_) => if s == Stage::Authenticated {
                Stage::ContextLoaded
            } else {
                Stage::Failed(RunError::OutOfOrder)
            },
            Event::Version(_) => if s == Stage::ContextLoaded {
                Stage::VersionLoaded
            } else {
                Stage::Failed(RunError::OutOfOrder)
            },
            Event::Limits(l) => if s != Stage::VersionLoaded {
                Stage::Failed(RunError::OutOfOrder)
            } else if mileage_metres(encode_utf8(l.total_day@)) is Some && mileage_metres(encode_utf8(l.total_week@)) is Some {
                Stage::QuotaLoaded
            } else {
                Stage::Failed(RunError::MalformedMileage)
            },
            Event::TransportFailed => if !waiting(s) {
                Stage::Failed(RunError::OutOfOrder)
            } else if s == Stage::Unauthenticated {
                Stage::Failed(RunError::LoginFailed)
            } else {
                Stage::Failed(RunError::Transport(step_of(s)))
            },
            Event::DecodeFailed => if !waiting(s) {
                Stage::Failed(RunError::OutOfOrder)
            } else if s == Stage::Unauthenticated {
                Stage::Failed(RunError::LoginFailed)
            } else {
                Stage::Failed(RunError::Deserialization(step_of(s)))
            },
        },
    }
}

/// A failed run stays failed with the same reason whatever answer comes
/// next, so no further request is made after a failed login or any other
/// failed step.
pub proof fn lemma_failure_is_final(x: RunError, e: Event)
    ensures
        next_stage(Stage::Failed(x), e) == Stage::Failed(x),
{
}

/// A failed or unreadable login ends the run with the login reason.
pub proof fn lemma_login_failure(e: Event)
    requires
        e is TransportFailed || e is DecodeFailed,
    ensures
        next_stage(Stage::Unauthenticated, e) == Stage::Failed(RunError::LoginFailed),
{
}

impl Account {
    /// The request that a stage calls for.
    pub open spec fn action_of(&self, a: Action) -> bool {
        match self.stage {
            Stage::Authenticated => a is FetchSemester,
            Stage::ContextLoaded => a is FetchVersion,
            Stage::VersionLoaded => a is FetchLimits && a->FetchLimits_semester_id@ == self.semester@,
            Stage::QuotaLoaded => a is Ready,
            Stage::Failed(x) => a == Action::Abort(x),
            Stage::Unauthenticated => a == Action::Abort(RunError::OutOfOrder),
        }
    }

    /// An account that has not logged in.
    pub fn new() -> (r: Account)
        ensures
            r.stage == Stage::Unauthenticated,
            r.id@.len() == 0,
            r.token@.len() == 0,
            r.organization@.len() == 0,
            r.quota == (QuotaSnapshot {
                daily_m: 0,
                weekly_m: 0,
                min_effective_m: 0,
                max_effective_m: 0,
                day_consumed_m: 0,
                week_consumed_m: 0,
                scoring: 0,
                limitation: r.quota.limitation,
            }),
            r.quota.limitation@.len() == 0,
            r.semester@.len() == 0,
            r.version@.len() == 0,
    {
        Account {
            stage: Stage::Unauthenticated,
            id: String::new(),
            token: String::new(),
            organization: String::new(),
            semester: String::new(),
            version: String::new(),
            quota: QuotaSnapshot {
                daily_m: 0,
                weekly_m: 0,
                min_effective_m: 0,
                max_effective_m: 0,
                day_consumed_m: 0,
                week_consumed_m: 0,
                scoring: 0,
                limitation: String::new(),
            },
        }
    }

    /// Starts a run: the account goes back to not logged in, keeping what it
    /// gathered until answers replace it, and the login request, signed over
    /// user name, password and entrance code, is the first action.
    pub fn login(&mut self, username: &str, password: &str) -> (a: Action)
        ensures
            final(self).stage == Stage::Unauthenticated,
            final(self).id == old(self).id,
            final(self).token == old(self).token,
            final(self).organization == old(self).organization,
            final(self).semester == old(self).semester,
            final(self).version == old(self).version,
            final(self).quota == old(self).quota,
            a->SendLogin_sign@.len() == 40,
            a is SendLogin,
            a->SendLogin_username@ == username@,
            a->SendLogin_password@ == password@,
            a->SendLogin_sign@ == hex_text(sha1_of(username@ + password@ + ENTRANCE@ + SALT@)),
    {
        self.stage = Stage::Unauthenticated;
        let sign = login_digest(username, password);
        Action::SendLogin {
            username: String::from_str(username),
            password: String::from_str(password),
            sign,
        }
    }

    fn fail(&mut self, e: RunError) -> (a: Action)
        ensures
            final(self).stage == Stage::Failed(e),
            a == Action::Abort(e),
            final(self).id == old(self).id,
            final(self).token == old(self).token,
            final(self).organization == old(self).organization,
            final(self).semester == old(self).semester,
            final(self).version == old(self).version,
            final(self).quota == old(self).quota,
    {
        self.stage = Stage::Failed(e);
        Action::Abort(e)
    }

    /// Takes the answer to the last request and returns the next action.
    pub fn step(&mut self, e: Event) -> (a: Action)
        ensures
            final(self).stage == next_stage(old(self).stage, e),
            final(self).action_of(a),
            (old(self).stage == Stage::Unauthenticated && e is LoggedIn) ==> final(self).id
                == e->LoggedIn_0.id && final(self).token == e->LoggedIn_0.access_token
                && final(self).organization == e->LoggedIn_0.campus_id,
            !(old(self).stage == Stage::Unauthenticated && e is LoggedIn) ==> final(self).id
                == old(self).id && final(self).token == old(self).token && final(self).organization
                == old(self).organization,
            (old(self).stage == Stage::Authenticated && e is Semester) ==> final(self).semester
                == e->Semester_0,
            !(old(self).stage == Stage::Authenticated && e is Semester) ==> final(self).semester
                == old(self).semester,
            (old(self).stage == Stage::ContextLoaded && e is Version) ==> final(self).version
                == e->Version_0,
            !(old(self).stage == Stage::ContextLoaded && e is Version) ==> final(self).version
                == old(self).version,
            final(self).stage == Stage::QuotaLoaded ==> ({
                let l = e->Limits_0;
                let q = final(self).quota;
                &&& q.daily_m == l.daily_m && q.weekly_m == l.weekly_m
                &&& q.min_effective_m == l.min_effective_m && q.max_effective_m == l.max_effective_m
                &&& q.day_consumed_m == mileage_metres(encode_utf8(l.total_day@))->0
                &&& q.week_consumed_m == mileage_metres(encode_utf8(l.total_week@))->0
                &&& q.scoring == l.scoring && q.limitation == l.limitation
            }),
            final(self).stage != Stage::QuotaLoaded ==> final(self).quota == old(self).quota,
    {
        let s = self.stage;
        if let Stage::Failed(x) = s {
            return Action::Abort(x);
        }
        match e {
            Event::LoggedIn(r) => {
                if s != Stage::Unauthenticated {
                    return self.fail(RunError::OutOfOrder);
                }
                self.id = r.id;
                self.token = r.access_token;
                self.organization = r.campus_id;
                self.stage = Stage::Authenticated;
                Action::FetchSemester
            },
            Event::Semester(id) => {
                if s != Stage::Authenticated {
                    return self.fail(RunError::OutOfOrder);
                }
                self.semester = id;
                self.stage = Stage::ContextLoaded;
                Action::FetchVersion
            },
            Event::Version(label) => {
                if s != Stage::ContextLoaded {
                    return self.fail(RunError::OutOfOrder);
                }
                self.version = label;
                self.stage = Stage::VersionLoaded;
                Action::FetchLimits { semester_id: self.semester.clone() }
            },
            Event::Limits(l) => {
                if s != Stage::VersionLoaded {
                    return self.fail(RunError::OutOfOrder);
                }
                let day = parse_mileage(l.total_day.as_str());
                let week = parse_mileage(l.total_week.as_str());
                match (day, week) {
                    (Ok(day_m), Ok(week_m)) => {
                        self.quota = QuotaSnapshot {
                            daily_m: l.daily_m,
                            weekly_m: l.weekly_m,
                            min_effective_m: l.min_effective_m,
                            max_effective_m: l.max_effective_m,
                            day_consumed_m: day_m,
                            week_consumed_m: week_m,
                            scoring: l.scoring,
                            limitation: l.limitation,
                        };
                        self.stage = Stage::QuotaLoaded;
                        Action::Ready
                    },
                    _ => self.fail(RunError::MalformedMileage),
                }
            },
            Event::TransportFailed => {
                if s == Stage::Unauthenticated {
                    self.fail(RunError::LoginFailed)
                } else if s == Stage::Authenticated {
                    self.fail(RunError::Transport(Step::Semester))
                } else if s == Stage::ContextLoaded {
                    self.fail(RunError::Transport(Step::Version))
                } else if s == Stage::VersionLoaded {
                    self.fail(RunError::Transport(Step::Limits))
                } else {
                    self.fail(RunError::OutOfOrder)
                }
            },
            Event::DecodeFailed => {
                if s == Stage::Unauthenticated {
                    self.fail(RunError::LoginFailed)
                } else if s == Stage::Authenticated {
                    self.fail(RunError::Deserialization(Step::Semester))
                } else if s == Stage::ContextLoaded {
                    self.fail(RunError::Deserialization(Step::Version))
                } else if s == Stage::VersionLoaded {
                    self.fail(RunError::Deserialization(Step::Limits))
                } else {
                    self.fail(RunError::OutOfOrder)
                }
            },
        }
    }
}

/// The text signed with an upload: distance, flag, start time, calories,
/// average pace, elapsed seconds, pace number, distance again and flag, in
/// that order.
pub open spec fn upload_text(s: SessionDraft) -> Seq<char> {
    km_text(s.distance_m as nat) + PART_FLAG@ + s.start_text@ + int_text(s.calorie as int) + int_text(
        s.ave_pace as int,
    ) + int_text(s.elapsed_s as int) + int_text(s.pace_number as int) + km_text(s.distance_m as nat)
        + PART_FLAG@
}

/// The signature of an upload.
pub open spec fn upload_signature(s: SessionDraft) -> Seq<char> {
    hex_text(sha1_of(upload_text(s) + SALT@))
}

/// The outcome of preparing an upload of `requested` metres: the clamped
/// distance, or why there is none.
pub open spec fn prepared(acc: Account, requested: u64) -> Result<u64, RunError> {
    let d = clamp_value(requested, acc.quota);
    if acc.stage != Stage::QuotaLoaded {
        Err(RunError::OutOfOrder)
    } else if d < acc.quota.min_effective_m {
        Err(RunError::DistanceTooLow)
    } else if d < MIN_SESSION_M {
        Err(RunError::SessionTooShort)
    } else if d > MAX_SESSION_M {
        Err(RunError::DistanceTooHigh)
    } else {
        Ok(d as u64)
    }
}

/// A signed session with its route, ready to send.
#[derive(Debug)]
pub struct Upload {
    pub session: SessionDraft,
    pub route: Vec<RoutePoint>,
    pub sign: String,
}

/// Signs a session: the digest of its fields in upload order, salted.
pub fn upload_sign(s: &SessionDraft) -> (r: String)
    ensures
        r@ == upload_signature(*s),
        r@.len() == 40,
{
    let km = km_string(s.distance_m);
    let mut fields: Vec<String> = Vec::new();
    fields.push(km_string(s.distance_m));
    fields.push(String::from_str(PART_FLAG));
    fields.push(s.start_text.clone());
    fields.push(i64_text(s.calorie));
    fields.push(i64_text(s.ave_pace));
    fields.push(i64_text(s.elapsed_s));
    fields.push(i64_text(s.pace_number));
    fields.push(km);
    fields.push(String::from_str(PART_FLAG));
    let r = digest(&fields, SALT);
    proof {
        let f = fields@;
        reveal_with_fuel(crate::digest::concat_texts, 10);
        assert(f.drop_last().drop_last().drop_last().drop_last().drop_last().drop_last().drop_last().drop_last().drop_last()
            =~= Seq::<String>::empty());
        assert(crate::digest::concat_texts(f) =~= upload_text(*s));
    }
    r
}

/// Adds the route and the signature to a session: the recorded route
/// replayed when one is given, else the synthetic track.
pub fn finish_upload(session: SessionDraft, recorded: Option<&Vec<RoutePoint>>) -> (r: Result<Upload, RunError>)
    requires
        session.distance_m <= MAX_SESSION_M,
    ensures
        recorded is None ==> r is Ok,
        recorded is Some ==> (r is Err <==> replay_refusal(recorded->0@) is Some),
        r is Err ==> r->Err_0 == RunError::Route(replay_refusal(recorded->0@)->0),
        r is Ok ==> ({
            let u = r->Ok_0;
            &&& u.session == session
            &&& u.route@.len() >= 2
            &&& path_length(u.route@) == session.distance_m
            &&& recorded is Some ==> u.route@[0] == recorded->0@[0]
            &&& (recorded is Some && path_length(recorded->0@) <= session.distance_m) ==> exists|w: Seq<int>|
                passes_in_order(u.route@, recorded->0@, w)
            &&& u.sign@ == upload_signature(session)
        }),
{
    let route = match recorded {
        Some(pts) => match replay_route(pts, session.distance_m) {
            Ok(r) => r,
            Err(e) => {
                return Err(RunError::Route(e));
            },
        },
        None => synthetic_route(session.distance_m),
    };
    let sign = upload_sign(&session);
    Ok(Upload { session, route, sign })
}

impl Account {
    /// Clamps a requested distance, in metres, against the loaded quotas.
    pub fn prepare(&self, requested: u64) -> (r: Result<u64, RunError>)
        ensures
            r == prepared(*self, requested),
    {
        if self.stage != Stage::QuotaLoaded {
            return Err(RunError::OutOfOrder);
        }
        match clamp(requested, &self.quota) {
            Err(e) => Err(e),
            Ok(d) => {
                if d < MIN_SESSION_M {
                    Err(RunError::SessionTooShort)
                } else if d > MAX_SESSION_M {
                    Err(RunError::DistanceTooHigh)
                } else {
                    Ok(d)
                }
            },
        }
    }

    /// Builds the upload of a run of `requested` metres: clamped against the
    /// quotas, jittered, timed to end now, routed and signed.
    pub fn upload_running(&self, requested: u64, recorded: Option<&Vec<RoutePoint>>) -> (r: Result<Upload, RunError>)
        ensures
            prepared(*self, requested) is Err ==> r == Err::<Upload, RunError>(prepared(*self, requested)->Err_0),
            r is Err ==> r->Err_0 == RunError::ClockOutOfRange || prepared(*self, requested) is Err
                || (recorded is Some && r->Err_0 == RunError::Route(replay_refusal(recorded->0@)->0)),
            (recorded is Some && replay_refusal(recorded->0@) is Some) ==> r is Err,
            r is Ok ==> ({
                let u = r->Ok_0;
                &&& prepared(*self, requested) is Ok
                &&& consistent(u.session, prepared(*self, requested)->Ok_0 as int)
                &&& u.route@.len() >= 2
                &&& path_length(u.route@) == u.session.distance_m
                &&& recorded is Some ==> u.route@[0] == recorded->0@[0]
                &&& (recorded is Some && path_length(recorded->0@) <= u.session.distance_m) ==> exists|w: Seq<int>|
                    passes_in_order(u.route@, recorded->0@, w)
                &&& u.sign@ == upload_signature(u.session)
            }),
    {
        let d = match self.prepare(requested) {
            Ok(d) => d,
            Err(e) => {
                return Err(e);
            },
        };
        let session = match synthesize(d) {
            Ok(s) => s,
            Err(e) => {
                return Err(e);
            },
        };
        finish_upload(session, recorded)
    }
}

} // verus!

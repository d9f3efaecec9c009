use legym_run::account::{upload_sign, Account, Action, Event, LimitsReply, LoginReply, Stage};
use legym_run::digest::{digest, login_digest, SALT};
use legym_run::error::{RouteError, RunError, Step};
use legym_run::quota::{clamp, parse_mileage, QuotaSnapshot};
use legym_run::route::{parse_route, replay_route, synthetic_route, RoutePoint};
use legym_run::session::{clock_fits, draw_jitter, elapsed_for, plan_session, synthesize, Jitter};
use legym_run::text::km_string;

fn snapshot() -> QuotaSnapshot {
    QuotaSnapshot {
        daily_m: 5000,
        weekly_m: 20000,
        min_effective_m: 1000,
        max_effective_m: 10000,
        day_consumed_m: 4000,
        week_consumed_m: 10000,
        scoring: 1,
        limitation: String::from("goal-1"),
    }
}

fn length(pts: &[RoutePoint]) -> i64 {
    pts.windows(2)
        .map(|w| (w[0].east - w[1].east).abs() + (w[0].north - w[1].north).abs())
        .sum()
}

fn loaded_account() -> Account {
    let mut acc = Account::new();
    let _ = acc.login("alice", "secret");
    let a = acc.step(Event::LoggedIn(LoginReply {
        id: String::from("u1"),
        access_token: String::from("tok"),
        campus_id: String::from("c9"),
    }));
    assert!(matches!(a, Action::FetchSemester));
    let a = acc.step(Event::Semester(String::from("sem-7")));
    assert!(matches!(a, Action::FetchVersion));
    let a = acc.step(Event::Version(String::from("3.8.2")));
    match a {
        Action::FetchLimits { semester_id } => assert_eq!(semester_id, "sem-7"),
        other => panic!("unexpected {:?}", other),
    }
    let a = acc.step(Event::Limits(LimitsReply {
        daily_m: 5000,
        weekly_m: 20000,
        min_effective_m: 1000,
        max_effective_m: 10000,
        limitation: String::from("goal-1"),
        scoring: 1,
        total_day: String::from("4"),
        total_week: String::from("10.0"),
    }));
    assert!(matches!(a, Action::Ready));
    acc
}

#[test]
fn digest_matches_known_vector() {
    let sign = login_digest("alice", "secret");
    assert_eq!(sign, "525d8b812da4a2b5511843dc2870141bb2a6f0ef");
    assert_eq!(sign.len(), 40);
    assert_eq!(login_digest("alice", "secret"), sign);
    let fields = vec![String::from("a"), String::from("bc")];
    assert_eq!(digest(&fields, ""), "a9993e364706816aba3e25717850c26c9cd0d89d");
}

#[test]
fn upload_signature_known_vector() {
    let j = Jitter { distance_m: -13, seconds: 5, pace_permille: 20 };
    let s = plan_session(1000, j, 1_709_280_000, 0, 28800);
    assert_eq!(s.distance_m, 987);
    assert_eq!(s.elapsed_s, 334);
    assert_eq!(s.pace_permille, 620);
    assert_eq!(s.start_unix, 1_709_279_666);
    assert_eq!(s.start_text, "2024-03-01 07:54:26");
    assert_eq!(s.end_text, "2024-03-01 16:00:00");
    assert_eq!(s.calorie, 57);
    assert_eq!(s.ave_pace, 338000);
    assert_eq!(s.pace_number, 795);
    assert_eq!(upload_sign(&s), "bd384495d1f49485f5ae762628471c489473e989");
}

#[test]
fn km_text_forms() {
    assert_eq!(km_string(987), "0.987");
    assert_eq!(km_string(1500), "1.5");
    assert_eq!(km_string(2000), "2");
    assert_eq!(km_string(1005), "1.005");
    assert_eq!(km_string(1050), "1.05");
    assert_eq!(km_string(0), "0");
}

#[test]
fn clamp_bounded_by_quota() {
    let q = snapshot();
    for requested in [0u64, 500, 999, 1000, 3000, 50000] {
        if let Ok(d) = clamp(requested, &q) {
            assert!(d <= 1000 && d <= 10000 && d >= 1000);
        }
    }
    let mut low = snapshot();
    low.day_consumed_m = 4500;
    for requested in [0u64, 1000, 3000, 50000] {
        assert_eq!(clamp(requested, &low), Err(RunError::DistanceTooLow));
    }
}

#[test]
fn clamp_takes_smallest_limit() {
    let mut q = snapshot();
    q.daily_m = 100000;
    q.min_effective_m = 0;
    assert_eq!(clamp(7000, &q), Ok(7000));
    assert_eq!(clamp(12000, &q), Ok(10000));
    q.week_consumed_m = 15000;
    assert_eq!(clamp(12000, &q), Ok(5000));
}

#[test]
fn parse_mileage_forms() {
    assert_eq!(parse_mileage("4"), Ok(4000));
    assert_eq!(parse_mileage("10.0"), Ok(10000));
    assert_eq!(parse_mileage("3.1415"), Ok(3141));
    assert_eq!(parse_mileage("0.05"), Ok(50));
    assert_eq!(parse_mileage(".5"), Ok(500));
    assert_eq!(parse_mileage(""), Err(RunError::MalformedMileage));
    assert_eq!(parse_mileage("1.2.3"), Err(RunError::MalformedMileage));
    assert_eq!(parse_mileage("-1"), Err(RunError::MalformedMileage));
    assert_eq!(parse_mileage("abc"), Err(RunError::MalformedMileage));
}

#[test]
fn session_within_jitter_bounds() {
    for effective in [21u64, 30, 68, 1000, 5000, 20000] {
        for _ in 0..50 {
            let s = synthesize(effective).unwrap();
            let m = s.distance_m as i64;
            assert!(m < effective as i64 - 1 && m >= effective as i64 - 20);
            let base = m / 3;
            assert!(s.elapsed_s >= base - 15 && s.elapsed_s < base + 15);
            assert!(s.elapsed_s >= 1);
            assert!(s.pace_permille >= 550 && s.pace_permille < 650);
            assert!(s.start_unix < s.end_unix);
            assert_eq!(s.end_unix - s.start_unix, s.elapsed_s);
        }
    }
}

#[test]
fn jitter_draws_in_range() {
    for _ in 0..200 {
        let j = draw_jitter();
        assert!(j.distance_m >= -20 && j.distance_m <= -2);
        assert!(j.seconds >= -15 && j.seconds < 15);
        assert!(j.pace_permille >= -50 && j.pace_permille < 50);
    }
    let j = Jitter { distance_m: -2, seconds: -15, pace_permille: 0 };
    assert_eq!(elapsed_for(3001, j), 984);
    assert_eq!(elapsed_for(30, j), 1);
    assert!(clock_fits(3001, j, 1_709_280_000));
    assert!(!clock_fits(3001, j, 500));
    assert!(!clock_fits(3001, j, -5));
    assert!(!clock_fits(3001, j, 300_000_000_000));
}

#[test]
fn synthetic_route_lengths() {
    for d in [100u64, 1000, 5000, 20000, 0, 7] {
        let r = synthetic_route(d);
        assert!(r.len() >= 2);
        assert_eq!(length(&r), d as i64);
    }
}

#[test]
fn replay_route_longer_and_shorter() {
    let rec = vec![
        RoutePoint { east: 0, north: 0 },
        RoutePoint { east: 30, north: 40 },
        RoutePoint { east: 80, north: 40 },
    ];
    for d in [50u64, 100, 2500] {
        let r = replay_route(&rec, d).unwrap();
        assert_eq!(r[0], rec[0]);
        assert_eq!(length(&r), d as i64);
    }
}

#[test]
fn replay_route_refusals() {
    let one = vec![RoutePoint { east: 0, north: 0 }];
    assert_eq!(replay_route(&one, 100), Err(RouteError::Degenerate));
    let still = vec![RoutePoint { east: 5, north: 5 }, RoutePoint { east: 5, north: 5 }];
    assert_eq!(replay_route(&still, 100), Err(RouteError::Degenerate));
    let far = vec![RoutePoint { east: 0, north: 0 }, RoutePoint { east: 2_000_000_000, north: 0 }];
    assert_eq!(replay_route(&far, 100), Err(RouteError::Malformed));
}

#[test]
fn scenario_daily_remaining_caps_distance() {
    let acc = loaded_account();
    assert_eq!(acc.prepare(3000), Ok(1000));
    let u = acc.upload_running(3000, None).unwrap();
    assert!(u.session.distance_m < 1000 && u.session.distance_m >= 980);
    assert_eq!(length(&u.route), u.session.distance_m as i64);
    assert_eq!(u.sign, upload_sign(&u.session));
}

#[test]
fn scenario_below_minimum_is_refused() {
    let acc = loaded_account();
    assert_eq!(acc.prepare(500), Err(RunError::DistanceTooLow));
    assert!(matches!(acc.upload_running(500, None), Err(RunError::DistanceTooLow)));
}

#[test]
fn scenario_login_failure_stops_run() {
    let mut acc = Account::new();
    match acc.login("alice", "secret") {
        Action::SendLogin { username, password, sign } => {
            assert_eq!(username, "alice");
            assert_eq!(password, "secret");
            assert_eq!(sign, "525d8b812da4a2b5511843dc2870141bb2a6f0ef");
        }
        other => panic!("unexpected {:?}", other),
    }
    let a = acc.step(Event::TransportFailed);
    assert!(matches!(a, Action::Abort(RunError::LoginFailed)));
    assert_eq!(acc.stage, Stage::Failed(RunError::LoginFailed));
    let a = acc.step(Event::Semester(String::from("sem")));
    assert!(matches!(a, Action::Abort(RunError::LoginFailed)));
    assert!(matches!(acc.upload_running(3000, None), Err(RunError::OutOfOrder)));
}

#[test]
fn step_failures_name_the_step() {
    let mut acc = Account::new();
    let _ = acc.login("a", "b");
    let _ = acc.step(Event::LoggedIn(LoginReply {
        id: String::from("u"),
        access_token: String::from("t"),
        campus_id: String::from("c"),
    }));
    assert_eq!(acc.token, "t");
    let a = acc.step(Event::DecodeFailed);
    assert!(matches!(a, Action::Abort(RunError::Deserialization(Step::Semester))));
}

#[test]
fn malformed_consumed_mileage_fails() {
    let mut acc = Account::new();
    let _ = acc.login("a", "b");
    let _ = acc.step(Event::LoggedIn(LoginReply {
        id: String::from("u"),
        access_token: String::from("t"),
        campus_id: String::from("c"),
    }));
    let _ = acc.step(Event::Semester(String::from("s")));
    let _ = acc.step(Event::Version(String::from("v")));
    let a = acc.step(Event::Limits(LimitsReply {
        daily_m: 1,
        weekly_m: 1,
        min_effective_m: 0,
        max_effective_m: 1,
        limitation: String::new(),
        scoring: 0,
        total_day: String::from("x"),
        total_week: String::from("1"),
    }));
    assert!(matches!(a, Action::Abort(RunError::MalformedMileage)));
}

#[test]
fn out_of_order_answer_fails() {
    let mut acc = Account::new();
    let a = acc.step(Event::Version(String::from("v")));
    assert!(matches!(a, Action::Abort(RunError::OutOfOrder)));
}

#[test]
fn upload_with_recorded_route() {
    let acc = loaded_account();
    let rec = vec![RoutePoint { east: 3, north: 4 }, RoutePoint { east: 3, north: 50 }];
    let u = acc.upload_running(3000, Some(&rec)).unwrap();
    assert_eq!(u.route[0], rec[0]);
    assert_eq!(length(&u.route), u.session.distance_m as i64);
    let bad = vec![RoutePoint { east: 3, north: 4 }];
    assert!(matches!(
        acc.upload_running(3000, Some(&bad)),
        Err(RunError::Route(RouteError::Degenerate))
    ));
}

#[test]
fn route_text_parses_pairs() {
    let pts = parse_route("0,0\n30 40\r\n-80,-5\n").unwrap();
    assert_eq!(
        pts,
        vec![
            RoutePoint { east: 0, north: 0 },
            RoutePoint { east: 30, north: 40 },
            RoutePoint { east: -80, north: -5 },
        ]
    );
    assert_eq!(parse_route(""), Ok(vec![]));
    assert_eq!(parse_route("1,2,3"), Err(RouteError::Malformed));
    assert_eq!(parse_route("1,-"), Err(RouteError::Malformed));
    assert_eq!(parse_route("1;2"), Err(RouteError::Malformed));
    assert_eq!(parse_route("1,2000000000"), Err(RouteError::Malformed));
    assert_eq!(parse_route("1,--2"), Err(RouteError::Malformed));
}

#[test]
fn distance_beyond_session_limit_is_refused() {
    let mut acc = Account::new();
    let _ = acc.login("a", "b");
    let _ = acc.step(Event::LoggedIn(LoginReply {
        id: String::from("u"),
        access_token: String::from("t"),
        campus_id: String::from("c"),
    }));
    let _ = acc.step(Event::Semester(String::from("s")));
    let _ = acc.step(Event::Version(String::from("v")));
    let _ = acc.step(Event::Limits(LimitsReply {
        daily_m: u64::MAX,
        weekly_m: u64::MAX,
        min_effective_m: 0,
        max_effective_m: u64::MAX,
        limitation: String::new(),
        scoring: 0,
        total_day: String::from("0"),
        total_week: String::from("0"),
    }));
    assert_eq!(acc.stage, Stage::QuotaLoaded);
    assert_eq!(acc.prepare(2_000_000_000), Err(RunError::DistanceTooHigh));
    assert_eq!(acc.prepare(20), Err(RunError::SessionTooShort));
    assert_eq!(acc.prepare(21), Ok(21));
}

#[test]
fn steps_keep_gathered_fields() {
    let acc = loaded_account();
    assert_eq!(acc.id, "u1");
    assert_eq!(acc.token, "tok");
    assert_eq!(acc.organization, "c9");
    assert_eq!(acc.semester, "sem-7");
    assert_eq!(acc.version, "3.8.2");
    let mut acc = acc;
    let _ = acc.login("alice", "secret");
    assert_eq!(acc.token, "tok");
    let _ = acc.step(Event::TransportFailed);
    assert_eq!(acc.token, "tok");
    assert_eq!(acc.semester, "sem-7");
}

#[test]
fn synthetic_route_spacing() {
    let r = synthetic_route(1234);
    for w in r.windows(2) {
        assert!((w[0].east - w[1].east).abs() + (w[0].north - w[1].north).abs() <= 10);
    }
}

#[test]
fn replay_route_passes_recorded_points_in_order() {
    let rec = vec![
        RoutePoint { east: 0, north: 0 },
        RoutePoint { east: 30, north: 40 },
        RoutePoint { east: 80, north: 40 },
        RoutePoint { east: 80, north: -25 },
    ];
    let r = replay_route(&rec, 185).unwrap();
    let mut from = 0;
    for p in &rec {
        let at = r[from..].iter().position(|q| q == p).expect("recorded point missing");
        from += at;
    }
}

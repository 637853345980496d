use lifelog::clock::{now_ms, unix_ms};
use lifelog::mac::{FrontmostApp, WindowInfo};
use lifelog::sampler::{
    advance_span, max_gap_ms, sample, span_key, Config, OpenSpan, Sample, SpanKey, SpanState,
    SpanStep,
};

const CONFIG: Config = Config { interval_ms: 5_000, idle_threshold_ms: 120_000 };

/// A row of the `spans` table: id, start, end, state and app.
type Row = (i64, i64, i64, &'static str, Option<String>);

fn app(name: &str, pid: i32) -> Option<FrontmostApp> {
    Some(FrontmostApp { bundle_id: Some(format!("com.{name}")), name: Some(name.to_string()), pid })
}

fn tick(ts_ms: i64, idle_ms: u64, locked: bool, name: &str) -> Sample {
    sample(ts_ms, idle_ms, locked, &app(name, 7), &None)
}

/// Runs the sampler over a table kept in memory.
fn run(samples: &[Sample], config: &Config) -> Vec<Row> {
    let mut rows: Vec<Row> = vec![];
    let mut open: Option<OpenSpan> = None;
    let gap = max_gap_ms(config);
    for s in samples {
        open = Some(match advance_span(open, span_key(s, config), s.ts_ms, gap) {
            SpanStep::Extend(span) => {
                rows.iter_mut().filter(|r| r.0 == span.id).for_each(|r| r.2 = span.last_ms);
                span
            }
            SpanStep::Start(new) => {
                let id = rows.len() as i64 + 1;
                let key = &new.key;
                rows.push((id, new.start_ms, new.start_ms, key.state.as_str(), key.app_name.clone()));
                new.inserted(id)
            }
        });
    }
    rows
}

fn named(name: &str) -> Option<String> {
    Some(name.to_string())
}

#[test]
fn gap_is_three_intervals() {
    assert_eq!(max_gap_ms(&CONFIG), 15_000);
    assert_eq!(max_gap_ms(&Config { interval_ms: 0, idle_threshold_ms: 0 }), 0);
    // Intervals are counted in 64 bits.
    assert_eq!(max_gap_ms(&Config { interval_ms: (1u128 << 64) + 5, idle_threshold_ms: 0 }), 15);
}

#[test]
fn silence_is_held_against_the_whole_threshold() {
    let state = |idle_ms: u64, idle_threshold_ms: u128| {
        let config = Config { interval_ms: 5_000, idle_threshold_ms };
        span_key(&tick(0, idle_ms, false, "Mail"), &config).state
    };
    assert_eq!(state(119_999, 120_000), SpanState::Active);
    assert_eq!(state(120_000, 120_000), SpanState::Idle);
    assert_eq!(state(0, 0), SpanState::Idle);
    // Thresholds beyond 64 bits are never reached.
    assert_eq!(state(0, 1u128 << 64), SpanState::Active);
    assert_eq!(state(i64::MAX as u64, (1u128 << 64) + 1), SpanState::Active);
    assert_eq!(state(0, 1_000 * u64::MAX as u128), SpanState::Active);
    assert_eq!(state(i64::MAX as u64, i64::MAX as u128), SpanState::Idle);
    assert_eq!(state(i64::MAX as u64, i64::MAX as u128 + 1), SpanState::Active);
}

#[test]
fn sample_of_a_front_app() {
    let windows = Some(vec![WindowInfo {
        layer: Some(0),
        owner_pid: Some(7),
        name: named("Inbox"),
    }]);
    let s = sample(1_000, 250, false, &app("Mail", 7), &windows);
    assert_eq!(s.ts_ms, 1_000);
    assert_eq!(s.bundle_id, named("com.Mail"));
    assert_eq!(s.app_name, named("Mail"));
    assert_eq!(s.pid, Some(7));
    assert_eq!(s.window_title, named("Inbox"));
    assert_eq!(s.idle_ms, 250);
    assert!(!s.locked);
}

#[test]
fn sample_without_a_front_app() {
    let windows = Some(vec![WindowInfo { layer: Some(0), owner_pid: Some(0), name: named("x") }]);
    let s = sample(1_000, u64::MAX, true, &None, &windows);
    assert_eq!((s.bundle_id, s.app_name, s.pid, s.window_title), (None, None, None, None));
    assert_eq!(s.idle_ms, -1);
    assert!(s.locked);
}

#[test]
fn states_and_their_words() {
    let state = |s: &Sample| span_key(s, &CONFIG).state;
    assert_eq!(state(&tick(0, 119_999, false, "Mail")), SpanState::Active);
    assert_eq!(state(&tick(0, 120_000, false, "Mail")), SpanState::Idle);
    assert_eq!(state(&tick(0, 0, true, "Mail")), SpanState::Locked);
    assert_eq!(state(&tick(0, 500_000, true, "Mail")), SpanState::Locked);
    assert_eq!(SpanState::Active.as_str(), "active");
    assert_eq!(SpanState::Idle.as_str(), "idle");
    assert_eq!(SpanState::Locked.as_str(), "locked");
}

#[test]
fn only_active_keys_name_an_app() {
    let active = span_key(&tick(0, 0, false, "Mail"), &CONFIG);
    assert_eq!(active.app_name, named("Mail"));
    assert_eq!(active.bundle_id, named("com.Mail"));
    let idle = span_key(&tick(0, 200_000, false, "Mail"), &CONFIG);
    assert_eq!((idle.bundle_id, idle.app_name, idle.window_title), (None, None, None));
}

fn key(state: SpanState, app_name: Option<&str>, window_title: Option<&str>) -> SpanKey {
    SpanKey {
        state,
        bundle_id: None,
        app_name: app_name.map(String::from),
        window_title: window_title.map(String::from),
    }
}

#[test]
fn keys_are_the_same_in_every_part() {
    let a = key(SpanState::Active, Some("Mail"), Some("Inbox"));
    assert!(a.same(&key(SpanState::Active, Some("Mail"), Some("Inbox"))));
    assert!(!a.same(&key(SpanState::Idle, Some("Mail"), Some("Inbox"))));
    assert!(!a.same(&key(SpanState::Active, Some("Notes"), Some("Inbox"))));
    assert!(!a.same(&key(SpanState::Active, Some("Mail"), None)));
    assert!(!a.same(&key(SpanState::Active, None, Some("Inbox"))));
}

#[test]
fn the_gap_limit_is_included() {
    let open = || Some(OpenSpan { id: 3, key: key(SpanState::Idle, None, None), last_ms: 100 });
    match advance_span(open(), key(SpanState::Idle, None, None), 115, 15) {
        SpanStep::Extend(span) => assert_eq!((span.id, span.last_ms), (3, 115)),
        SpanStep::Start(_) => panic!("must extend"),
    }
    match advance_span(open(), key(SpanState::Idle, None, None), 116, 15) {
        SpanStep::Extend(_) => panic!("must start"),
        SpanStep::Start(new) => assert_eq!(new.start_ms, 116),
    }
    // A clock that was set back extends the span.
    match advance_span(open(), key(SpanState::Idle, None, None), 40, 15) {
        SpanStep::Extend(span) => assert_eq!(span.last_ms, 40),
        SpanStep::Start(_) => panic!("must extend"),
    }
}

#[test]
fn one_row_per_run_of_ticks() {
    let rows = run(
        &[
            tick(0, 0, false, "Mail"),
            tick(5_000, 0, false, "Mail"),
            tick(10_000, 0, false, "Notes"),
            tick(15_000, 0, false, "Mail"),
            tick(20_000, 0, false, "Mail"),
        ],
        &CONFIG,
    );
    assert_eq!(
        rows,
        vec![
            (1, 0, 5_000, "active", named("Mail")),
            (2, 10_000, 10_000, "active", named("Notes")),
            (3, 15_000, 20_000, "active", named("Mail")),
        ]
    );
    // Each span ends before the next one starts.
    assert!(rows.windows(2).all(|w| w[0].1 <= w[0].2 && w[0].2 < w[1].1));
}

#[test]
fn a_long_pause_is_not_counted() {
    let rows = run(
        &[
            tick(0, 0, false, "Mail"),
            tick(5_000, 0, false, "Mail"),
            tick(3_600_000, 0, false, "Mail"),
            tick(3_605_000, 0, false, "Mail"),
        ],
        &CONFIG,
    );
    assert_eq!(
        rows,
        vec![
            (1, 0, 5_000, "active", named("Mail")),
            (2, 3_600_000, 3_605_000, "active", named("Mail")),
        ]
    );
    assert_eq!(rows.iter().map(|r| r.2 - r.1).sum::<i64>(), 10_000);
}

#[test]
fn a_lunch_break_is_one_span() {
    let rows = run(
        &[
            tick(0, 130_000, false, "Mail"),
            tick(5_000, 135_000, false, "Notes"),
            tick(10_000, 140_000, false, "Safari"),
        ],
        &CONFIG,
    );
    assert_eq!(rows, vec![(1, 0, 10_000, "idle", None)]);
}

#[test]
fn a_lunch_break_after_work_is_one_span() {
    let rows = run(
        &[
            tick(0, 0, false, "Mail"),
            tick(5_000, 121_000, false, "Mail"),
            tick(10_000, 126_000, false, "Notes"),
            tick(15_000, 131_000, false, "Safari"),
            tick(20_000, 0, false, "Safari"),
        ],
        &CONFIG,
    );
    assert_eq!(
        rows,
        vec![
            (1, 0, 0, "active", named("Mail")),
            (2, 5_000, 15_000, "idle", None),
            (3, 20_000, 20_000, "active", named("Safari")),
        ]
    );
    // Each tick lies in a span.
    for ts in [0, 5_000, 10_000, 15_000, 20_000] {
        assert_eq!(rows.iter().filter(|r| r.1 <= ts && ts <= r.2).count(), 1);
    }
}

#[test]
fn clock_in_64_bits() {
    assert_eq!(unix_ms(1_700_000_000_000), 1_700_000_000_000);
    assert_eq!(unix_ms(1u128 << 63), i64::MIN);
    let now = now_ms().expect("clock after epoch");
    assert!(now > 1_600_000_000_000);
}

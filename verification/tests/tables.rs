use lifelog::mac::FrontmostApp;
use lifelog::sampler::{advance_span, max_gap_ms, sample, span_key, Config, OpenSpan, SpanStep};
use lifelog::screentime::{rescan_since, tally};
use lifelog::server::{read_body, Batch, BatchAction};
use rusqlite::Connection;

fn db() -> Connection {
    let conn = Connection::open_in_memory().expect("in-memory db");
    conn.execute_batch(
        "CREATE TABLE spans (id INTEGER PRIMARY KEY, start_ms INTEGER NOT NULL,
             end_ms INTEGER NOT NULL, state TEXT NOT NULL, app_name TEXT);
         CREATE TABLE phone_events (id INTEGER PRIMARY KEY, ts_ms INTEGER NOT NULL, device TEXT,
             kind TEXT NOT NULL, payload TEXT);
         CREATE TABLE screentime_usage (uuid TEXT PRIMARY KEY, value TEXT NOT NULL);",
    )
    .expect("schema");
    conn
}

fn number(conn: &Connection, query: &str) -> i64 {
    conn.query_row(query, [], |row| row.get(0)).expect("a number")
}

#[test]
fn usage_is_a_plain_sum_over_the_spans_table() {
    let conn = db();
    conn.execute("INSERT INTO spans VALUES (41, 1, 2, 'active', 'Mail')", []).expect("old row");
    let config = Config { interval_ms: 5_000, idle_threshold_ms: 120_000 };
    let mut open: Option<OpenSpan> = None;
    // Mail, a pause that is too long, Mail again, a break, Notes.
    let ticks: [(i64, &str, u64); 7] = [
        (100_000, "Mail", 0),
        (105_000, "Mail", 0),
        (900_000, "Mail", 0),
        (910_000, "Mail", 0),
        (915_000, "Mail", 125_000),
        (920_000, "Notes", 130_000),
        (925_000, "Notes", 0),
    ];
    for (ts, name, idle) in ticks {
        let app = Some(FrontmostApp { bundle_id: None, name: Some(name.to_string()), pid: 1 });
        let seen = sample(ts, idle, false, &app, &None);
        let step = advance_span(open, span_key(&seen, &config), ts, max_gap_ms(&config));
        open = Some(match step {
            SpanStep::Extend(span) => {
                conn.execute(
                    "UPDATE spans SET end_ms = ?1 WHERE id = ?2",
                    (span.last_ms, span.id),
                )
                .expect("update");
                span
            }
            SpanStep::Start(new) => {
                conn.execute(
                    "INSERT INTO spans (start_ms, end_ms, state, app_name) VALUES (?1, ?1, ?2, ?3)",
                    (new.start_ms, new.key.state.as_str(), &new.key.app_name),
                )
                .expect("insert");
                new.inserted(conn.last_insert_rowid())
            }
        });
    }
    assert_eq!(number(&conn, "SELECT COUNT(*) FROM spans"), 5);
    assert_eq!(
        number(&conn, "SELECT SUM(end_ms - start_ms) FROM spans WHERE state = 'active'"),
        1 + 5_000 + 10_000
    );
    assert_eq!(
        number(&conn, "SELECT SUM(end_ms - start_ms) FROM spans WHERE state = 'idle'"),
        5_000
    );
    // At any moment at most one span is running.
    assert_eq!(
        number(&conn, "SELECT COUNT(*) FROM spans WHERE start_ms <= 917000 AND end_ms >= 917000"),
        1
    );
    assert_eq!(
        number(&conn, "SELECT COUNT(*) FROM spans WHERE start_ms <= 500000 AND end_ms >= 500000"),
        0
    );
}

#[test]
fn a_span_across_the_start_of_a_report_counts_from_there_on() {
    let conn = db();
    conn.execute_batch(
        "INSERT INTO spans VALUES (1, 1000, 4000, 'active', 'Mail');
         INSERT INTO spans VALUES (2, 5000, 7000, 'active', 'Mail');",
    )
    .expect("rows");
    let total: i64 = conn
        .query_row(
            "SELECT SUM(end_ms - MAX(start_ms, ?1)) FROM spans WHERE end_ms >= ?1",
            [3_000],
            |row| row.get(0),
        )
        .expect("a number");
    assert_eq!(total, 1_000 + 2_000);
}

#[test]
fn posted_events_reach_the_table() {
    let conn = db();
    let body = r#"[{"kind":"app_opened","device":"iphone","payload":{"app":"Instagram"}},
                   {"kind":"unlock","ts_ms":7}]"#;
    let events = match read_body(&Some(body.to_string())) {
        Ok(events) => events,
        Err(reply) => panic!("{}", reply.body),
    };
    let mut batch = Batch::new(events, 1_000);
    let mut action = batch.action();
    let reply = loop {
        match action {
            BatchAction::Respond(reply) => break reply,
            BatchAction::Insert(row) => {
                let outcome = conn.execute(
                    "INSERT INTO phone_events (ts_ms, device, kind, payload) VALUES (?1, ?2, ?3, ?4)",
                    (row.ts_ms, row.device, row.kind, row.payload),
                );
                action = batch.advance(outcome.map_err(|e| e.to_string()));
            }
        }
    };
    assert_eq!((reply.status, reply.body.as_str()), (200, r#"{"ok":true,"inserted":2}"#));
    assert_eq!(
        number(
            &conn,
            r#"SELECT COUNT(*) FROM phone_events WHERE ts_ms = 1000 AND device = 'iphone'
               AND kind = 'app_opened' AND payload = '{"app":"Instagram"}'"#
        ),
        1
    );
    assert_eq!(
        number(
            &conn,
            "SELECT COUNT(*) FROM phone_events WHERE ts_ms = 7 AND device IS NULL
             AND kind = 'unlock' AND payload IS NULL"
        ),
        1
    );
}

#[test]
fn a_rescan_changes_nothing() {
    let conn = db();
    let ingest = |rows: &[(&str, &str)]| {
        rows.iter().fold(0u64, |inserted, row| {
            let changed = conn
                .execute("INSERT OR IGNORE INTO screentime_usage VALUES (?1, ?2)", (row.0, row.1))
                .expect("insert");
            tally(inserted, changed)
        })
    };
    assert_eq!(ingest(&[("a", "Mail"), ("b", "Notes"), ("a", "Safari")]), 2);
    assert_eq!(ingest(&[("b", "Safari"), ("a", "Mail")]), 0);
    assert_eq!(ingest(&[("b", "Notes"), ("c", "Maps")]), 1);
    assert_eq!(
        number(&conn, "SELECT COUNT(*) FROM screentime_usage WHERE uuid = 'a' AND value = 'Mail'"),
        1
    );
}

#[test]
fn an_unchanged_source_adds_nothing() {
    const DAY_MS: i64 = 86_400_000;
    let conn = Connection::open_in_memory().expect("open");
    conn.execute_batch(
        "CREATE TABLE screentime_usage (uuid TEXT PRIMARY KEY, start_ms INTEGER NOT NULL)",
    )
    .expect("schema");
    let ingest = |source: &[(&str, i64)]| {
        let latest =
            number(&conn, "SELECT COALESCE(MAX(start_ms) / 1000, 0) FROM screentime_usage");
        let since = rescan_since(latest);
        let inserted = source.iter().filter(|row| row.1 >= 1_000 * since).fold(0u64, |sum, row| {
            let changed = conn
                .execute("INSERT OR IGNORE INTO screentime_usage VALUES (?1, ?2)", *row)
                .expect("insert");
            tally(sum, changed)
        });
        (since, inserted)
    };
    let mut source = vec![("a", 100 * DAY_MS), ("b", 120 * DAY_MS + 1), ("c", 110 * DAY_MS)];
    assert_eq!(ingest(&source), (-14 * 86_400, 3));
    assert_eq!(ingest(&source), (106 * 86_400, 0));
    // What shows up late lies in the window; what is older than that does not.
    source.push(("d", 107 * DAY_MS));
    source.push(("e", 101 * DAY_MS));
    assert_eq!(ingest(&source), (106 * 86_400, 1));
    assert_eq!(ingest(&source), (106 * 86_400, 0));
}

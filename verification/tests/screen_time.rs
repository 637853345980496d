use lifelog::db::default_path;
use lifelog::paths::join;
use lifelog::screentime::{
    append_suffix, copy_failed, db_missing, db_suffixes, ingest_line, ingest_notice,
    knowledge_db_path, placeholders, rescan_since, snapshot_dir, snapshot_path, snapshot_step,
    streams, tally, usage_query, SnapshotStep,
};
use std::path::Path;

fn text(bytes: Vec<u8>) -> String {
    String::from_utf8(bytes).expect("ASCII path")
}

#[test]
fn default_locations() {
    assert_eq!(
        text(default_path(b"/Users/me/Library/Application Support")),
        "/Users/me/Library/Application Support/lifelog/lifelog.db"
    );
    assert_eq!(
        text(knowledge_db_path(b"/Users/me")),
        "/Users/me/Library/Application Support/Knowledge/knowledgeC.db"
    );
    assert_eq!(text(snapshot_dir(b"/tmp/", 4711)), "/tmp/lifelog-kc-4711");
    assert_eq!(text(snapshot_path(b"/tmp/lifelog-kc-4711")), "/tmp/lifelog-kc-4711/knowledgeC.db");
}

#[test]
fn joins_as_the_system_does() {
    for base in ["", "/", "a", "a/", "/a/b", "a//"] {
        for name in ["", "x", "x/y", "/x", "\u{e9}"] {
            let expected = Path::new(base).join(name);
            assert_eq!(text(join(base.as_bytes(), name)), expected.to_str().expect("UTF-8"));
        }
    }
}

#[test]
fn suffixes_keep_every_byte() {
    assert_eq!(append_suffix(b"/a/knowledgeC.db", ""), b"/a/knowledgeC.db".to_vec());
    assert_eq!(append_suffix(b"/a/knowledgeC.db", "-wal"), b"/a/knowledgeC.db-wal".to_vec());
    assert_eq!(append_suffix(&[0xff, 0x2f], "-shm"), vec![0xff, 0x2f, b'-', b's', b'h', b'm']);
}

#[test]
fn only_the_db_itself_is_needed() {
    assert_eq!(db_suffixes(), ["", "-wal", "-shm"]);
    assert_eq!(snapshot_step("", true), SnapshotStep::Copy);
    assert_eq!(snapshot_step("-wal", true), SnapshotStep::Copy);
    assert_eq!(snapshot_step("-wal", false), SnapshotStep::Clear);
    assert_eq!(snapshot_step("-shm", false), SnapshotStep::Clear);
    assert_eq!(snapshot_step("", false), SnapshotStep::Missing);
}

#[test]
fn messages_of_a_failed_snapshot() {
    assert_eq!(
        copy_failed("/a/b"),
        "copying /a/b (launchd agents need Full Disk Access to read Screen Time data: \
         System Settings > Privacy & Security > Full Disk Access > add the lifelog binary)"
    );
    assert_eq!(db_missing("/a/b"), "/a/b does not exist");
}

#[test]
fn two_weeks_are_rescanned() {
    assert_eq!(rescan_since(0), -1_209_600);
    assert_eq!(rescan_since(1_700_000_000), 1_700_000_000 - 14 * 86_400);
    // Usage from two weeks before the latest one still lies in the window.
    let latest_ms: i64 = 1_700_000_000_999;
    assert!(latest_ms - 14 * 86_400_000 >= 1_000 * rescan_since(latest_ms / 1_000));
}

#[test]
fn query_has_a_parameter_per_stream() {
    assert_eq!(streams(), ["/app/usage", "/app/webUsage"]);
    assert_eq!(placeholders(0), "");
    assert_eq!(placeholders(1), "?");
    assert_eq!(placeholders(3), "?, ?, ?");
    let query = usage_query(streams().len());
    assert!(query.starts_with("SELECT o.ZUUID, o.ZSTREAMNAME, o.ZVALUESTRING,"));
    assert!(query.contains("WHERE o.ZSTREAMNAME IN (?, ?)\n"));
    assert!(query.ends_with("AND o.ZSTARTDATE >= ?"));
}

#[test]
fn ingest_counts() {
    assert_eq!(tally(4, 1), 5);
    assert_eq!(tally(4, 0), 4);
    assert_eq!(ingest_notice(0), None);
    assert_eq!(ingest_notice(12), Some("lifelog: screentime ingested 12 rows".to_string()));
    assert_eq!(ingest_line(0), "ingested 0 new screentime rows");
}

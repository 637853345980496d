//! Screen Time ingest: which files are snapshotted, and which rows of
//! knowledgeC.db are read.
use crate::paths::{extend, join};
use crate::text::decimal_text;
use vstd::prelude::*;
use vstd::string::StringExecFns;

verus! {

/// How far back to re-scan on every run, in seconds. Generous so rows that
/// knowledged flushes late (or that sync in from another device) are still
/// picked up; the uuid primary key makes the overlap idempotent.
pub const LOOKBACK_SECS: i64 = 14 * 86_400;

/// The front of the query for usage, up to the list of streams.
pub const QUERY_HEAD: &'static str = "SELECT o.ZUUID, o.ZSTREAMNAME, o.ZVALUESTRING, o.ZSTARTDATE, o.ZENDDATE, s.ZDEVICEID
         FROM ZOBJECT o
         LEFT JOIN ZSOURCE s ON o.ZSOURCE = s.Z_PK
         WHERE o.ZSTREAMNAME IN (";

/// The rest of the query for usage.
pub const QUERY_TAIL: &'static str = ")
           AND o.ZVALUESTRING IS NOT NULL
           AND o.ZSTARTDATE >= ?";

/// How to let the daemon read Screen Time data.
pub const COPY_FIX: &'static str = " (launchd agents need Full Disk Access to read Screen Time data: System Settings > Privacy & Security > Full Disk Access > add the lifelog binary)";

/// Where macOS keeps its Screen Time data, below a home directory.
pub fn knowledge_db_path(home: &[u8]) -> (path: Vec<u8>)
    ensures
        path@ == crate::paths::joined(
            home@,
            vstd::utf8::encode_utf8("Library/Application Support/Knowledge/knowledgeC.db"@),
        ),
{
    join(home, "Library/Application Support/Knowledge/knowledgeC.db")
}

/// The path of a file that stands beside another one, under its name with a
/// suffix.
pub fn append_suffix(path: &[u8], suffix: &str) -> (longer: Vec<u8>)
    ensures
        longer@ == path@ + vstd::utf8::encode_utf8(suffix@),
{
    let mut longer: Vec<u8> = Vec::new();
    extend(&mut longer, path);
    extend(&mut longer, suffix.as_bytes());
    assert(longer@ =~= path@ + vstd::utf8::encode_utf8(suffix@));
    longer
}

/// The directory below `temp_dir` in which the process `pid` snapshots
/// knowledgeC.db.
pub fn snapshot_dir(temp_dir: &[u8], pid: u32) -> (dir: Vec<u8>)
    ensures
        dir@ == crate::paths::joined(
            temp_dir@,
            vstd::utf8::encode_utf8("lifelog-kc-"@ + crate::text::decimal(pid as nat)),
        ),
{
    let mut name = "lifelog-kc-".to_owned();
    name.append(decimal_text(pid as u64).as_str());
    join(temp_dir, name.as_str())
}

/// The snapshot of knowledgeC.db in a snapshot directory.
pub fn snapshot_path(dir: &[u8]) -> (path: Vec<u8>)
    ensures
        path@ == crate::paths::joined(dir@, vstd::utf8::encode_utf8("knowledgeC.db"@)),
{
    join(dir, "knowledgeC.db")
}

/// The files that make up knowledgeC.db, by what follows its name: the db, its
/// write-ahead log and that log's index.
pub fn db_suffixes() -> (suffixes: Vec<&'static str>)
    ensures
        suffixes@.len() == 3,
        suffixes@[0]@ == ""@,
        suffixes@[1]@ == "-wal"@,
        suffixes@[2]@ == "-shm"@,
{
    let mut suffixes: Vec<&'static str> = Vec::new();
    suffixes.push("");
    suffixes.push("-wal");
    suffixes.push("-shm");
    suffixes
}

/// What the snapshot does about one of the files of knowledgeC.db.
#[derive(Clone, Copy, PartialEq, Eq, Structural, Debug)]
pub enum SnapshotStep {
    /// Copy it.
    Copy,
    /// Do without it, and remove the copy that an earlier run may have left.
    Clear,
    /// Give up: there is no db.
    Missing,
}

/// Decides about the file with the given suffix: what is there is copied; of
/// what is not, only the db itself is needed.
pub fn snapshot_step(suffix: &str, present: bool) -> (step: SnapshotStep)
    ensures
        step == if present {
            SnapshotStep::Copy
        } else if suffix@.len() == 0 {
            SnapshotStep::Missing
        } else {
            SnapshotStep::Clear
        },
{
    if present {
        SnapshotStep::Copy
    } else if suffix.is_empty() {
        SnapshotStep::Missing
    } else {
        SnapshotStep::Clear
    }
}

/// What is said of a file that could not be copied. The copy is where missing
/// Full Disk Access shows up, so the message names the fix.
pub fn copy_failed(path: &str) -> (message: String)
    ensures
        message@ == "copying "@ + path@ + COPY_FIX@,
{
    let mut message = "copying ".to_owned();
    message.append(path);
    message.append(COPY_FIX);
    message
}

/// What is said where there is no knowledgeC.db.
pub fn db_missing(path: &str) -> (message: String)
    ensures
        message@ == path@ + " does not exist"@,
{
    let mut message = path.to_owned();
    message.append(" does not exist");
    message
}

/// Streams worth keeping: app usage (bundle id) and Safari web usage (domain).
pub fn streams() -> (streams: Vec<&'static str>)
    ensures
        streams@.len() == 2,
        streams@[0]@ == "/app/usage"@,
        streams@[1]@ == "/app/webUsage"@,
{
    let mut streams: Vec<&'static str> = Vec::new();
    streams.push("/app/usage");
    streams.push("/app/webUsage");
    streams
}

/// The start of the window to re-scan, in Unix seconds, given the start of the
/// latest usage that is stored (zero where none is).
pub open spec fn window_start(latest_unix_s: int) -> int {
    latest_unix_s - LOOKBACK_SECS
}

/// The start of the window to re-scan, in Unix seconds, given the start of the
/// latest usage that is stored (zero where none is).
pub fn rescan_since(latest_unix_s: i64) -> (since_unix_s: i64)
    requires
        i64::MIN <= window_start(latest_unix_s as int),
    ensures
        since_unix_s == window_start(latest_unix_s as int),
{
    latest_unix_s - LOOKBACK_SECS
}

/// Usage that shows up late is still picked up: whatever started no more than
/// the lookback before the latest usage that is stored lies in the window.
pub proof fn law_late_usage_is_rescanned(latest_ms: int, start_ms: int)
    requires
        latest_ms >= 0,
        start_ms >= latest_ms - 1000 * LOOKBACK_SECS,
    ensures
        start_ms >= 1000 * window_start(latest_ms / 1000),
{
}

/// A list of `count` query parameters.
pub open spec fn parameters(count: nat) -> Seq<char>
    decreases count,
{
    if count == 0 {
        ""@
    } else if count == 1 {
        "?"@
    } else {
        parameters((count - 1) as nat) + ", "@ + "?"@
    }
}

/// Writes a list of `count` query parameters.
pub fn placeholders(count: usize) -> (list: String)
    ensures
        list@ == parameters(count as nat),
{
    let mut list = String::new();
    let mut written: usize = 0;
    proof {
        reveal_strlit("");
        assert(list@ =~= ""@);
    }
    while written < count
        invariant
            written <= count,
            list@ == parameters(written as nat),
            parameters(0) == Seq::<char>::empty(),
        decreases count - written,
    {
        if written > 0 {
            list.append(", ");
        }
        list.append("?");
        written = written + 1;
        assert(list@ =~= parameters(written as nat));
    }
    list
}

/// The query for usage: its parameters are the streams worth keeping and the
/// start of the window, in Core Data seconds.
pub fn usage_query(streams: usize) -> (query: String)
    ensures
        query@ == QUERY_HEAD@ + parameters(streams as nat) + QUERY_TAIL@,
{
    let mut query = QUERY_HEAD.to_owned();
    query.append(placeholders(streams).as_str());
    query.append(QUERY_TAIL);
    query
}

/// Adds the rows that one more insert changed to those of an ingest so far.
pub fn tally(inserted: u64, changed: usize) -> (total: u64)
    requires
        inserted + changed <= u64::MAX,
    ensures
        total == inserted + changed,
{
    inserted + changed as u64
}

/// What the daemon logs about an ingest: nothing where nothing was new.
pub fn ingest_notice(rows: u64) -> (notice: Option<String>)
    ensures
        notice.deep_view() == if rows > 0 {
            Some(
                "lifelog: screentime ingested "@ + crate::text::decimal(rows as nat) + " rows"@,
            )
        } else {
            None
        },
{
    if rows > 0 {
        let mut notice = "lifelog: screentime ingested ".to_owned();
        notice.append(decimal_text(rows).as_str());
        notice.append(" rows");
        Some(notice)
    } else {
        None
    }
}

/// What a one-shot ingest prints.
pub fn ingest_line(rows: u64) -> (line: String)
    ensures
        line@ == "ingested "@ + crate::text::decimal(rows as nat) + " new screentime rows"@,
{
    let mut line = "ingested ".to_owned();
    line.append(decimal_text(rows).as_str());
    line.append(" new screentime rows");
    line
}

/// Screen Time data stands in the file that macOS keeps it in below the home
/// directory, whatever that is.
pub proof fn law_screen_time_lies_below_home(home: &[u8], path: Vec<u8>)
    requires
        call_ensures(knowledge_db_path, (home,), path),
    ensures
        crate::paths::is_below(
            path@,
            home@,
            "Library/Application Support/Knowledge/knowledgeC.db"@,
        ),
{
    reveal_strlit("Library/Application Support/Knowledge/knowledgeC.db");
    crate::paths::lemma_joined_is_below(
        home@,
        "Library/Application Support/Knowledge/knowledgeC.db"@,
    );
}

/// A suffix comes right behind a path, every byte of which stays.
pub proof fn law_a_suffix_ends_the_path(path: &[u8], suffix: &str, longer: Vec<u8>)
    requires
        call_ensures(append_suffix, (path, suffix), longer),
    ensures
        longer@.take(path@.len() as int) == path@,
        longer@.skip(path@.len() as int) == vstd::utf8::encode_utf8(suffix@),
{
    assert(longer@.take(path@.len() as int) =~= path@);
    assert(longer@.skip(path@.len() as int) =~= vstd::utf8::encode_utf8(suffix@));
}

/// Each process has a snapshot directory of its own below the one for temporary
/// files: its name ends in the number of the process.
pub proof fn law_each_process_has_its_snapshot_directory(
    temp_dir: &[u8],
    pid: u32,
    dir: Vec<u8>,
    shown: String,
)
    requires
        call_ensures(snapshot_dir, (temp_dir, pid), dir),
        call_ensures(decimal_text, (pid as u64,), shown),
    ensures
        crate::paths::is_below(dir@, temp_dir@, "lifelog-kc-"@ + shown@),
{
    reveal_strlit("lifelog-kc-");
    crate::text::lemma_decimal_reads(pid as nat);
    let name = "lifelog-kc-"@ + shown@;
    assert forall|i: int| 0 <= i < name.len() implies '\0' <= #[trigger] name[i] <= '\u{7f}' by {
        if i >= "lifelog-kc-"@.len() {
            assert(name[i] == shown@[i - "lifelog-kc-"@.len()]);
        }
    }
    crate::paths::lemma_joined_is_below(temp_dir@, name);
}

/// The snapshot stands below its directory under the name of the file that it is
/// a copy of.
pub proof fn law_a_snapshot_lies_in_its_directory(dir: &[u8], path: Vec<u8>)
    requires
        call_ensures(snapshot_path, (dir,), path),
    ensures
        crate::paths::is_below(path@, dir@, "knowledgeC.db"@),
{
    reveal_strlit("knowledgeC.db");
    crate::paths::lemma_joined_is_below(dir@, "knowledgeC.db"@);
}

/// A file is copied if and only if it is there. An ingest gives up if and only if
/// the db itself, which has no suffix, is not there.
pub proof fn law_only_a_missing_db_stops_an_ingest(
    suffix: &str,
    present: bool,
    step: SnapshotStep,
)
    requires
        call_ensures(snapshot_step, (suffix, present), step),
    ensures
        step == SnapshotStep::Copy <==> present,
        step == SnapshotStep::Missing <==> !present && suffix@.len() == 0,
        step == SnapshotStep::Clear <==> !present && suffix@.len() > 0,
{
}

/// Messages about a file name it, whatever its name is; the one about a failed
/// copy also says what to do.
pub proof fn law_messages_name_the_file(path: &str, failed: String, missing: String)
    requires
        call_ensures(copy_failed, (path,), failed),
        call_ensures(db_missing, (path,), missing),
    ensures
        failed@ == "copying "@ + path@
            + " (launchd agents need Full Disk Access to read Screen Time data: System Settings > Privacy & Security > Full Disk Access > add the lifelog binary)"@,
        missing@ == path@ + " does not exist"@,
{
}

/// The window to re-scan starts two weeks, to the second, before the latest usage
/// that is stored.
pub proof fn law_the_window_reaches_back_two_weeks(latest_unix_s: i64, since_unix_s: i64)
    requires
        call_ensures(rescan_since, (latest_unix_s,), since_unix_s),
    ensures
        latest_unix_s - since_unix_s == 2 * 7 * 24 * 60 * 60,
{
}

/// A list of query parameters holds as many question marks as there are
/// parameters, with a comma and a space between two of them.
pub proof fn law_one_question_mark_per_parameter(count: usize, list: String)
    requires
        call_ensures(placeholders, (count,), list),
    ensures
        list@.len() == if count == 0 {
            0
        } else {
            3 * count - 2
        },
        forall|p: int|
            0 <= p < list@.len() ==> #[trigger] list@[p] == if p % 3 == 0 {
                '?'
            } else if p % 3 == 1 {
                ','
            } else {
                ' '
            },
{
    lemma_parameters(count as nat);
}

/// The query asks for uuid, stream, value, start, end and device of all usage of
/// some streams that has a value and starts no earlier than some moment; the
/// streams are as many parameters as there are streams, the moment is the last
/// one.
pub proof fn law_the_query_lists_a_parameter_per_stream(
    streams: usize,
    query: String,
    list: String,
)
    requires
        call_ensures(usage_query, (streams,), query),
        call_ensures(placeholders, (streams,), list),
    ensures
        query@ == "SELECT o.ZUUID, o.ZSTREAMNAME, o.ZVALUESTRING, o.ZSTARTDATE, o.ZENDDATE, s.ZDEVICEID
         FROM ZOBJECT o
         LEFT JOIN ZSOURCE s ON o.ZSOURCE = s.Z_PK
         WHERE o.ZSTREAMNAME IN ("@ + list@ + ")
           AND o.ZVALUESTRING IS NOT NULL
           AND o.ZSTARTDATE >= ?"@,
{
}

/// The rows of an ingest add up: what one more insert changed is what the total
/// grows by.
pub proof fn law_the_total_grows_by_what_changed(inserted: u64, changed: usize, total: u64)
    requires
        call_ensures(tally, (inserted, changed), total),
    ensures
        total - inserted == changed,
{
}

/// An ingest is logged if and only if a row was new, and every message about one
/// gives the number of new rows.
pub proof fn law_ingests_are_reported_with_their_rows(
    rows: u64,
    notice: Option<String>,
    line: String,
    shown: String,
)
    requires
        call_ensures(ingest_notice, (rows,), notice),
        call_ensures(ingest_line, (rows,), line),
        call_ensures(decimal_text, (rows,), shown),
    ensures
        notice is Some <==> rows != 0,
        notice matches Some(notice) ==> notice@ == "lifelog: screentime ingested "@ + shown@
            + " rows"@,
        line@ == "ingested "@ + shown@ + " new screentime rows"@,
{
}

proof fn lemma_parameters(count: nat)
    ensures
        parameters(count).len() == if count == 0 {
            0
        } else {
            3 * count - 2
        },
        forall|p: int|
            0 <= p < parameters(count).len() ==> #[trigger] parameters(count)[p] == if p % 3 == 0 {
                '?'
            } else if p % 3 == 1 {
                ','
            } else {
                ' '
            },
    decreases count,
{
    reveal_strlit("");
    reveal_strlit("?");
    reveal_strlit(", ");
    if count > 1 {
        let front = parameters((count - 1) as nat);
        lemma_parameters((count - 1) as nat);
        let list = parameters(count);
        assert(list =~= front + seq![',', ' ', '?']);
        assert forall|p: int| 0 <= p < list.len() implies #[trigger] list[p] == if p % 3 == 0 {
            '?'
        } else if p % 3 == 1 {
            ','
        } else {
            ' '
        } by {
            if p < front.len() {
                assert(list[p] == front[p]);
            }
        }
    }
}

} // verus!

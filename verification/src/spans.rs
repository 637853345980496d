//! What the `spans` table holds after any number of ticks.
//!
//! The table is modelled as a sequence of rows. Recording a tick performs the
//! step that [`crate::sampler::advance_span`] decides: an update of one row by
//! its id, or an insert under an id that the table did not hold.
use crate::sampler::{Config, KeyView, OpenSpan, OpenView, Sample, SpanState, SpanStep};
use vstd::prelude::*;

verus! {

/// One tick, reduced to what decides about spans.
pub struct Tick {
    pub ts: int,
    pub key: KeyView,
}

/// One row of the `spans` table.
pub struct SpanRow {
    pub id: i64,
    pub start_ms: int,
    pub end_ms: int,
    pub key: KeyView,
}

/// The table and the span that the sampler holds open.
pub struct Recorded {
    pub rows: Seq<SpanRow>,
    pub open: Option<OpenView>,
}

/// The table after the end of the row `id` has been moved.
pub open spec fn with_end(rows: Seq<SpanRow>, id: i64, end_ms: int) -> Seq<SpanRow> {
    rows.map_values(
        |row: SpanRow|
            if row.id == id {
                SpanRow { end_ms, ..row }
            } else {
                row
            },
    )
}

/// One tick, where a row inserted for it gets the id `new_id`.
pub open spec fn record(recorded: Recorded, tick: Tick, new_id: i64, max_gap: int) -> Recorded {
    if crate::sampler::continues(recorded.open, tick.key, tick.ts, max_gap) {
        let span = recorded.open->0;
        Recorded {
            rows: with_end(recorded.rows, span.id, tick.ts),
            open: Some(OpenView { last_ms: tick.ts, ..span }),
        }
    } else {
        Recorded {
            rows: recorded.rows.push(
                SpanRow { id: new_id, start_ms: tick.ts, end_ms: tick.ts, key: tick.key },
            ),
            open: Some(OpenView { id: new_id, key: tick.key, last_ms: tick.ts }),
        }
    }
}

/// The table and the open span after a step of the sampler has been performed,
/// where a row inserted for it gets the id `new_id`.
pub open spec fn perform(recorded: Recorded, step: SpanStep, new_id: i64) -> Recorded {
    match step {
        SpanStep::Extend(span) => Recorded {
            rows: with_end(recorded.rows, span.id, span.last_ms as int),
            open: Some(span@),
        },
        SpanStep::Start(new) => Recorded {
            rows: recorded.rows.push(
                SpanRow {
                    id: new_id,
                    start_ms: new.start_ms as int,
                    end_ms: new.start_ms as int,
                    key: new.key@,
                },
            ),
            open: Some(OpenView { id: new_id, key: new.key@, last_ms: new.start_ms as int }),
        },
    }
}

/// A run of the sampler from its start, on a table that already holds the rows
/// `existing`. The tick at `i` gets the id `ids[i]` where it inserts a row.
pub open spec fn record_all(
    existing: Seq<SpanRow>,
    ticks: Seq<Tick>,
    ids: Seq<i64>,
    max_gap: int,
) -> Recorded
    decreases ticks.len(),
{
    if ticks.len() == 0 {
        Recorded { rows: existing, open: None }
    } else {
        record(
            record_all(existing, ticks.drop_last(), ids, max_gap),
            ticks.last(),
            ids[ticks.len() - 1],
            max_gap,
        )
    }
}

/// Whether `ids` are ids that a table can hand out for `count` inserts on top of
/// the rows `existing`.
pub open spec fn fresh_ids(existing: Seq<SpanRow>, ids: Seq<i64>, count: nat) -> bool {
    &&& count <= ids.len()
    &&& forall|i: int, j: int| 0 <= i < j < count ==> ids[i] != ids[j]
    &&& forall|i: int, r: int|
        0 <= i < count && 0 <= r < existing.len() ==> #[trigger] ids[i] != (
        #[trigger] existing[r]).id
}

/// Whether the tick at `i` cannot belong to the span of the tick before it:
/// there is none, it has another key, or the pause was too long.
pub open spec fn breaks(ticks: Seq<Tick>, max_gap: int, i: int) -> bool {
    i == 0 || ticks[i].key != ticks[i - 1].key || ticks[i].ts - ticks[i - 1].ts > max_gap
}

/// The maximal runs of ticks without a break, in order, each as its first and
/// its last tick.
pub open spec fn runs(ticks: Seq<Tick>, max_gap: int) -> Seq<(int, int)>
    decreases ticks.len(),
{
    if ticks.len() == 0 {
        Seq::empty()
    } else {
        let before = runs(ticks.drop_last(), max_gap);
        let i = ticks.len() - 1;
        if breaks(ticks, max_gap, i) {
            before.push((i, i))
        } else {
            before.drop_last().push((before.last().0, i))
        }
    }
}

/// The row of a run of ticks: from its first tick to its last.
pub open spec fn row_of(ticks: Seq<Tick>, ids: Seq<i64>, run: (int, int)) -> SpanRow {
    SpanRow {
        id: ids[run.0],
        start_ms: ticks[run.0].ts,
        end_ms: ticks[run.1].ts,
        key: ticks[run.0].key,
    }
}

/// One row for each run of ticks.
pub open spec fn spans(ticks: Seq<Tick>, ids: Seq<i64>, max_gap: int) -> Seq<SpanRow> {
    runs(ticks, max_gap).map_values(|run: (int, int)| row_of(ticks, ids, run))
}

/// The time that the rows with a key in `kind` cover: a plain sum.
pub open spec fn total_ms(rows: Seq<SpanRow>, kind: spec_fn(KeyView) -> bool) -> int
    decreases rows.len(),
{
    if rows.len() == 0 {
        0
    } else {
        total_ms(rows.drop_last(), kind) + if kind(rows.last().key) {
            rows.last().end_ms - rows.last().start_ms
        } else {
            0
        }
    }
}

/// The time between neighbouring ticks that share a key in `kind`, without the
/// pauses that were too long.
pub open spec fn observed_ms(
    ticks: Seq<Tick>,
    max_gap: int,
    kind: spec_fn(KeyView) -> bool,
) -> int
    decreases ticks.len(),
{
    if ticks.len() == 0 {
        0
    } else {
        let i = ticks.len() - 1;
        observed_ms(ticks.drop_last(), max_gap, kind) + if !breaks(ticks, max_gap, i) && kind(
            ticks[i].key,
        ) {
            ticks[i].ts - ticks[i - 1].ts
        } else {
            0
        }
    }
}

/// The runs cut the ticks into consecutive pieces: the first starts at the first
/// tick, each next one right after the one before, the last ends at the last
/// tick, and there is a break where a piece starts and nowhere else.
pub proof fn law_runs_partition_the_ticks(ticks: Seq<Tick>, max_gap: int)
    ensures
        (runs(ticks, max_gap).len() == 0) == (ticks.len() == 0),
        ticks.len() > 0 ==> runs(ticks, max_gap)[0].0 == 0 && runs(ticks, max_gap).last().1
            == ticks.len() - 1,
        forall|k: int|
            0 <= k < runs(ticks, max_gap).len() ==> 0 <= (#[trigger] runs(ticks, max_gap)[k]).0
                <= runs(ticks, max_gap)[k].1 < ticks.len(),
        forall|j: int, k: int|
            0 <= j < k < runs(ticks, max_gap).len() ==> (#[trigger] runs(ticks, max_gap)[j]).1 < (
            #[trigger] runs(ticks, max_gap)[k]).0,
        forall|j: int, k: int|
            0 <= j && k == j + 1 && k < runs(ticks, max_gap).len() ==> (#[trigger] runs(
                ticks,
                max_gap,
            )[k]).0 == (#[trigger] runs(ticks, max_gap)[j]).1 + 1,
        forall|k: int|
            0 <= k < runs(ticks, max_gap).len() ==> breaks(
                ticks,
                max_gap,
                (#[trigger] runs(ticks, max_gap)[k]).0,
            ),
        forall|k: int, i: int|
            0 <= k < runs(ticks, max_gap).len() && (#[trigger] runs(ticks, max_gap)[k]).0 < i
                <= runs(ticks, max_gap)[k].1 ==> !#[trigger] breaks(ticks, max_gap, i),
    decreases ticks.len(),
{
    if ticks.len() > 0 {
        let before = ticks.drop_last();
        let n = ticks.len() - 1;
        law_runs_partition_the_ticks(before, max_gap);
        assert forall|i: int| 0 <= i < n implies #[trigger] breaks(ticks, max_gap, i) == breaks(
            before,
            max_gap,
            i,
        ) by {}
        if !breaks(ticks, max_gap, n) {
            assert(before.len() > 0);
        }
    }
}

/// Whatever ticks the sampler sees, its table holds the rows it found,
/// unchanged, and then one row for each maximal run of ticks with one key and
/// without a long pause, from the first tick of the run to its last.
pub proof fn law_table_holds_one_row_per_run(
    existing: Seq<SpanRow>,
    ticks: Seq<Tick>,
    ids: Seq<i64>,
    max_gap: int,
)
    requires
        fresh_ids(existing, ids, ticks.len()),
    ensures
        record_all(existing, ticks, ids, max_gap).rows == existing + spans(ticks, ids, max_gap),
        ticks.len() > 0 ==> record_all(existing, ticks, ids, max_gap).open == Some(
            OpenView {
                id: ids[runs(ticks, max_gap).last().0],
                key: ticks.last().key,
                last_ms: ticks.last().ts,
            },
        ),
    decreases ticks.len(),
{
    let after = record_all(existing, ticks, ids, max_gap);
    if ticks.len() == 0 {
        assert(after.rows =~= existing + spans(ticks, ids, max_gap));
    } else {
        let before = ticks.drop_last();
        law_table_holds_one_row_per_run(existing, before, ids, max_gap);
        lemma_spans_after_a_tick(ticks, ids, max_gap);
        if breaks(ticks, max_gap, ticks.len() - 1) {
            assert(after.rows =~= existing + spans(ticks, ids, max_gap));
        } else {
            lemma_only_the_last_row_moves(existing, ticks, ids, max_gap);
        }
    }
}

/// Performing the step that the sampler decides on records the tick.
pub proof fn law_steps_record_ticks(
    recorded: Recorded,
    open: Option<OpenSpan>,
    key: KeyView,
    ts: i64,
    max_gap_ms: i64,
    step: SpanStep,
    new_id: i64,
)
    requires
        recorded.open == crate::sampler::open_view(open),
        crate::sampler::is_step(open, key, ts, max_gap_ms, step),
    ensures
        perform(recorded, step, new_id) == record(
            recorded,
            Tick { ts: ts as int, key },
            new_id,
            max_gap_ms as int,
        ),
{
}

/// A plain sum over the table gives the time spent: whatever keys are asked
/// for, it grows by the time between neighbouring ticks with such a key, without
/// the pauses that were too long.
pub proof fn law_usage_is_a_plain_sum(
    existing: Seq<SpanRow>,
    ticks: Seq<Tick>,
    ids: Seq<i64>,
    max_gap: int,
    kind: spec_fn(KeyView) -> bool,
)
    requires
        fresh_ids(existing, ids, ticks.len()),
    ensures
        total_ms(record_all(existing, ticks, ids, max_gap).rows, kind) == total_ms(existing, kind)
            + observed_ms(ticks, max_gap, kind),
{
    law_table_holds_one_row_per_run(existing, ticks, ids, max_gap);
    lemma_total_of_both(existing, spans(ticks, ids, max_gap), kind);
    lemma_total_of_spans(ticks, ids, max_gap, kind);
}

/// No span is stretched across a pause that was too long: a span that started
/// before the pause ends at or before the last tick in front of it.
pub proof fn law_no_span_crosses_a_long_pause(ticks: Seq<Tick>, max_gap: int, i: int, k: int)
    requires
        0 < i < ticks.len(),
        ticks[i].ts - ticks[i - 1].ts > max_gap,
        0 <= k < runs(ticks, max_gap).len(),
        runs(ticks, max_gap)[k].0 < i,
    ensures
        runs(ticks, max_gap)[k].1 <= i - 1,
{
    law_runs_partition_the_ticks(ticks, max_gap);
    assert(breaks(ticks, max_gap, i));
}

/// While the clock rises from tick to tick, spans end no earlier than they
/// start, each ends before the next one starts, and so no moment lies in two of
/// them.
pub proof fn law_a_rising_clock_keeps_spans_apart(
    existing: Seq<SpanRow>,
    ticks: Seq<Tick>,
    ids: Seq<i64>,
    max_gap: int,
)
    requires
        fresh_ids(existing, ids, ticks.len()),
        forall|i: int, j: int| 0 <= i < j < ticks.len() ==> ticks[i].ts < ticks[j].ts,
    ensures
        forall|r: int|
            existing.len() <= r < record_all(existing, ticks, ids, max_gap).rows.len() ==> (
            #[trigger] record_all(existing, ticks, ids, max_gap).rows[r]).start_ms <= record_all(
                existing,
                ticks,
                ids,
                max_gap,
            ).rows[r].end_ms,
        forall|q: int, r: int|
            existing.len() <= q < r < record_all(existing, ticks, ids, max_gap).rows.len() ==> (
            #[trigger] record_all(existing, ticks, ids, max_gap).rows[q]).end_ms < (
            #[trigger] record_all(existing, ticks, ids, max_gap).rows[r]).start_ms,
        forall|moment: int, q: int, r: int|
            existing.len() <= q < record_all(existing, ticks, ids, max_gap).rows.len()
                && existing.len() <= r < record_all(existing, ticks, ids, max_gap).rows.len()
                && #[trigger] covers(
                record_all(existing, ticks, ids, max_gap).rows[q],
                moment,
            ) && #[trigger] covers(record_all(existing, ticks, ids, max_gap).rows[r], moment)
                ==> q == r,
{
    law_table_holds_one_row_per_run(existing, ticks, ids, max_gap);
    law_runs_partition_the_ticks(ticks, max_gap);
    let rows = record_all(existing, ticks, ids, max_gap).rows;
    let pieces = runs(ticks, max_gap);
    let base = existing.len() as int;
    assert forall|r: int| base <= r < rows.len() implies (#[trigger] rows[r]).start_ms
        <= rows[r].end_ms by {
        assert(rows[r] == row_of(ticks, ids, pieces[r - base]));
    }
    assert forall|q: int, r: int| base <= q < r < rows.len() implies (#[trigger] rows[q]).end_ms < (
    #[trigger] rows[r]).start_ms by {
        assert(rows[q] == row_of(ticks, ids, pieces[q - base]));
        assert(rows[r] == row_of(ticks, ids, pieces[r - base]));
    }
    assert forall|moment: int, q: int, r: int|
        base <= q < rows.len() && base <= r < rows.len() && #[trigger] covers(rows[q], moment)
            && #[trigger] covers(rows[r], moment) implies q == r by {
        if q < r {
            assert(rows[q].end_ms < rows[r].start_ms);
        }
        if r < q {
            assert(rows[r].end_ms < rows[q].start_ms);
        }
    }
}

/// Whether a moment lies in a span, its two ends included.
pub open spec fn covers(row: SpanRow, moment: int) -> bool {
    row.start_ms <= moment <= row.end_ms
}

/// While the clock does not go back, the table knows what was going on at every
/// tick: some row covers the tick's moment, with the tick's key.
pub proof fn law_every_tick_lies_in_a_span(
    existing: Seq<SpanRow>,
    ticks: Seq<Tick>,
    ids: Seq<i64>,
    max_gap: int,
    i: int,
)
    requires
        fresh_ids(existing, ids, ticks.len()),
        0 <= i < ticks.len(),
        forall|j: int, k: int| 0 <= j <= k < ticks.len() ==> ticks[j].ts <= ticks[k].ts,
    ensures
        exists|r: int|
            existing.len() <= r < record_all(existing, ticks, ids, max_gap).rows.len()
                && #[trigger] covers(
                record_all(existing, ticks, ids, max_gap).rows[r],
                ticks[i].ts,
            ) && record_all(existing, ticks, ids, max_gap).rows[r].key == ticks[i].key,
{
    law_table_holds_one_row_per_run(existing, ticks, ids, max_gap);
    law_runs_partition_the_ticks(ticks, max_gap);
    let rows = record_all(existing, ticks, ids, max_gap).rows;
    let pieces = runs(ticks, max_gap);
    let k = lemma_run_around(ticks, max_gap, i, i);
    lemma_one_key_up_to(ticks, max_gap, k, i);
    let r = existing.len() + k;
    assert(rows[r] == row_of(ticks, ids, pieces[k]));
    assert(covers(rows[r], ticks[i].ts));
}

/// The ticks of a series of samples.
pub open spec fn ticks_of(samples: Seq<Sample>, config: Config) -> Seq<Tick> {
    samples.map_values(
        |sample: Sample|
            Tick { ts: sample.ts_ms as int, key: crate::sampler::key_of(sample, config) },
    )
}

/// A break from work is one span: samples that are all idle, or all locked, and
/// follow each other without a long pause become a single row, whatever apps and
/// windows they saw.
pub proof fn law_a_break_is_one_span(
    existing: Seq<SpanRow>,
    samples: Seq<Sample>,
    config: Config,
    ids: Seq<i64>,
    max_gap: int,
    state: SpanState,
)
    requires
        samples.len() > 0,
        fresh_ids(existing, ids, samples.len()),
        state != SpanState::Active,
        forall|i: int|
            0 <= i < samples.len() ==> crate::sampler::state_of(#[trigger] samples[i], config)
                == state,
        forall|i: int, j: int|
            0 <= i && j == i + 1 && j < samples.len() ==> (#[trigger] samples[j]).ts_ms - (
            #[trigger] samples[i]).ts_ms <= max_gap,
    ensures
        record_all(existing, ticks_of(samples, config), ids, max_gap).rows == existing.push(
            SpanRow {
                id: ids[0],
                start_ms: samples[0].ts_ms as int,
                end_ms: samples.last().ts_ms as int,
                key: KeyView { state, bundle_id: None, app_name: None, window_title: None },
            },
        ),
{
    let ticks = ticks_of(samples, config);
    law_table_holds_one_row_per_run(existing, ticks, ids, max_gap);
    law_runs_partition_the_ticks(ticks, max_gap);
    let pieces = runs(ticks, max_gap);
    assert forall|i: int| 0 < i < ticks.len() implies !#[trigger] breaks(ticks, max_gap, i) by {
        assert(samples[i].ts_ms - samples[i - 1].ts_ms <= max_gap);
    }
    assert(pieces[0].0 == 0);
    if pieces.len() > 1 {
        assert(pieces[0].1 < pieces[1].0);
        assert(breaks(ticks, max_gap, pieces[1].0));
        assert(false);
    }
    assert(spans(ticks, ids, max_gap) =~= seq![row_of(ticks, ids, (0, ticks.len() - 1))]);
    assert(existing + spans(ticks, ids, max_gap) =~= existing.push(
        row_of(ticks, ids, (0, ticks.len() - 1)),
    ));
}

/// A break from work is one span wherever it falls: in any series of samples, a
/// stretch from `a` to `b` that is all idle, or all locked, without a long pause
/// lies in a single run, and the row of that run names no app.
pub proof fn law_a_break_lies_in_one_span(
    existing: Seq<SpanRow>,
    samples: Seq<Sample>,
    config: Config,
    ids: Seq<i64>,
    max_gap: int,
    state: SpanState,
    a: int,
    b: int,
)
    requires
        0 <= a <= b < samples.len(),
        fresh_ids(existing, ids, samples.len()),
        state != SpanState::Active,
        forall|i: int|
            a <= i <= b ==> crate::sampler::state_of(#[trigger] samples[i], config) == state,
        forall|i: int, j: int|
            a <= i && j == i + 1 && j <= b ==> (#[trigger] samples[j]).ts_ms - (
            #[trigger] samples[i]).ts_ms <= max_gap,
    ensures
        ({
            let ticks = ticks_of(samples, config);
            let pieces = runs(ticks, max_gap);
            let rows = record_all(existing, ticks, ids, max_gap).rows;
            exists|k: int|
                {
                    &&& 0 <= k < pieces.len()
                    &&& (#[trigger] pieces[k]).0 <= a
                    &&& b <= pieces[k].1
                    &&& rows[existing.len() + k] == row_of(ticks, ids, pieces[k])
                    &&& rows[existing.len() + k].key == KeyView {
                        state,
                        bundle_id: None,
                        app_name: None,
                        window_title: None,
                    }
                }
        }),
{
    let ticks = ticks_of(samples, config);
    let pieces = runs(ticks, max_gap);
    let rows = record_all(existing, ticks, ids, max_gap).rows;
    law_table_holds_one_row_per_run(existing, ticks, ids, max_gap);
    assert forall|i: int| a < i <= b implies !#[trigger] breaks(ticks, max_gap, i) by {
        assert(samples[i].ts_ms - samples[i - 1].ts_ms <= max_gap);
    }
    let k = lemma_run_around(ticks, max_gap, a, b);
    lemma_one_key_up_to(ticks, max_gap, k, a);
    assert(rows[existing.len() + k] == row_of(ticks, ids, pieces[k]));
    assert(crate::sampler::state_of(samples[a], config) == state);
}

/// Two neighbouring ticks lie in one run if and only if they have one key and the
/// second comes no later than the longest pause after the first.
pub proof fn law_neighbours_share_a_run_iff_in_time_under_one_key(
    ticks: Seq<Tick>,
    max_gap: int,
    i: int,
)
    requires
        0 <= i,
        i + 1 < ticks.len(),
    ensures
        (exists|k: int|
            0 <= k < runs(ticks, max_gap).len() && (#[trigger] runs(ticks, max_gap)[k]).0 <= i && i
                + 1 <= runs(ticks, max_gap)[k].1) <==> (ticks[i].key == ticks[i + 1].key
            && ticks[i + 1].ts <= ticks[i].ts + max_gap),
{
    law_runs_partition_the_ticks(ticks, max_gap);
    if breaks(ticks, max_gap, i + 1) {
        assert forall|k: int| 0 <= k < runs(ticks, max_gap).len() && (#[trigger] runs(
            ticks,
            max_gap,
        )[k]).0 <= i implies runs(ticks, max_gap)[k].1 < i + 1 by {}
    } else {
        let k = lemma_run_around(ticks, max_gap, i, i + 1);
        assert(runs(ticks, max_gap)[k].0 <= i);
    }
}

/// The table answers what was going on at the moment of an active sample: while
/// the clock does not go back, some row covers that moment and carries the app,
/// by both its names, and the window title that the sample saw.
pub proof fn law_an_active_moment_keeps_its_app_and_window(
    existing: Seq<SpanRow>,
    samples: Seq<Sample>,
    config: Config,
    ids: Seq<i64>,
    max_gap: int,
    i: int,
)
    requires
        fresh_ids(existing, ids, samples.len()),
        0 <= i < samples.len(),
        forall|j: int, k: int|
            0 <= j <= k < samples.len() ==> (#[trigger] samples[j]).ts_ms <= (
            #[trigger] samples[k]).ts_ms,
        !samples[i].locked,
        samples[i].idle_ms < config.idle_threshold_ms,
    ensures
        ({
            let rows = record_all(existing, ticks_of(samples, config), ids, max_gap).rows;
            exists|r: int|
                {
                    &&& existing.len() <= r < rows.len()
                    &&& (#[trigger] rows[r]).start_ms <= samples[i].ts_ms <= rows[r].end_ms
                    &&& rows[r].key.state == SpanState::Active
                    &&& rows[r].key.bundle_id == samples[i].bundle_id.deep_view()
                    &&& rows[r].key.app_name == samples[i].app_name.deep_view()
                    &&& rows[r].key.window_title == samples[i].window_title.deep_view()
                }
        }),
{
    let ticks = ticks_of(samples, config);
    let rows = record_all(existing, ticks, ids, max_gap).rows;
    assert forall|j: int, k: int| 0 <= j <= k < ticks.len() implies ticks[j].ts <= ticks[k].ts by {
        assert(samples[j].ts_ms <= samples[k].ts_ms);
    }
    law_every_tick_lies_in_a_span(existing, ticks, ids, max_gap, i);
    let r = choose|r: int|
        existing.len() <= r < rows.len() && #[trigger] covers(rows[r], ticks[i].ts) && rows[r].key
            == ticks[i].key;
    assert(rows[r].start_ms <= samples[i].ts_ms <= rows[r].end_ms);
}

/// The table answers that nobody was at work at the moment of a sample that was
/// locked, or silent for as long as the threshold: some row covers that moment
/// and names neither an app nor a window.
pub proof fn law_a_moment_of_a_break_names_nothing(
    existing: Seq<SpanRow>,
    samples: Seq<Sample>,
    config: Config,
    ids: Seq<i64>,
    max_gap: int,
    i: int,
)
    requires
        fresh_ids(existing, ids, samples.len()),
        0 <= i < samples.len(),
        forall|j: int, k: int|
            0 <= j <= k < samples.len() ==> (#[trigger] samples[j]).ts_ms <= (
            #[trigger] samples[k]).ts_ms,
        samples[i].locked || samples[i].idle_ms >= config.idle_threshold_ms,
    ensures
        ({
            let rows = record_all(existing, ticks_of(samples, config), ids, max_gap).rows;
            exists|r: int|
                {
                    &&& existing.len() <= r < rows.len()
                    &&& (#[trigger] rows[r]).start_ms <= samples[i].ts_ms <= rows[r].end_ms
                    &&& samples[i].locked ==> rows[r].key.state == SpanState::Locked
                    &&& !samples[i].locked ==> rows[r].key.state == SpanState::Idle
                    &&& rows[r].key.bundle_id is None
                    &&& rows[r].key.app_name is None
                    &&& rows[r].key.window_title is None
                }
        }),
{
    let ticks = ticks_of(samples, config);
    let rows = record_all(existing, ticks, ids, max_gap).rows;
    assert forall|j: int, k: int| 0 <= j <= k < ticks.len() implies ticks[j].ts <= ticks[k].ts by {
        assert(samples[j].ts_ms <= samples[k].ts_ms);
    }
    law_every_tick_lies_in_a_span(existing, ticks, ids, max_gap, i);
    let r = choose|r: int|
        existing.len() <= r < rows.len() && #[trigger] covers(rows[r], ticks[i].ts) && rows[r].key
            == ticks[i].key;
    assert(rows[r].start_ms <= samples[i].ts_ms <= rows[r].end_ms);
}

/// Two neighbouring active samples that saw different apps, by either name, or
/// different window titles never share a row: while the clock rises, no row of
/// the sampler reaches from the one to the other.
pub proof fn law_another_window_is_another_row(
    existing: Seq<SpanRow>,
    samples: Seq<Sample>,
    config: Config,
    ids: Seq<i64>,
    max_gap: int,
    i: int,
    r: int,
)
    requires
        fresh_ids(existing, ids, samples.len()),
        0 <= i,
        i + 1 < samples.len(),
        forall|j: int, k: int|
            0 <= j < k < samples.len() ==> (#[trigger] samples[j]).ts_ms < (
            #[trigger] samples[k]).ts_ms,
        !samples[i].locked,
        !samples[i + 1].locked,
        samples[i].idle_ms < config.idle_threshold_ms,
        samples[i + 1].idle_ms < config.idle_threshold_ms,
        samples[i].bundle_id.deep_view() != samples[i + 1].bundle_id.deep_view()
            || samples[i].app_name.deep_view() != samples[i + 1].app_name.deep_view()
            || samples[i].window_title.deep_view() != samples[i + 1].window_title.deep_view(),
        existing.len() <= r < record_all(
            existing,
            ticks_of(samples, config),
            ids,
            max_gap,
        ).rows.len(),
    ensures
        ({
            let row = record_all(existing, ticks_of(samples, config), ids, max_gap).rows[r];
            row.end_ms < samples[i + 1].ts_ms || samples[i].ts_ms < row.start_ms
        }),
{
    let ticks = ticks_of(samples, config);
    assert(ticks[i].key != ticks[i + 1].key);
    lemma_rows_stop_at_a_break(existing, samples, config, ids, max_gap, i, r);
}

/// No row is stretched across a pause of more than three intervals: while the
/// clock rises, no row of the sampler reaches from the sample before the pause
/// to the one behind it.
pub proof fn law_no_row_crosses_more_than_three_intervals(
    existing: Seq<SpanRow>,
    samples: Seq<Sample>,
    config: Config,
    ids: Seq<i64>,
    gap: i64,
    i: int,
    r: int,
)
    requires
        call_ensures(crate::sampler::max_gap_ms, (&config,), gap),
        3 * config.interval_ms <= i64::MAX,
        fresh_ids(existing, ids, samples.len()),
        0 <= i,
        i + 1 < samples.len(),
        forall|j: int, k: int|
            0 <= j < k < samples.len() ==> (#[trigger] samples[j]).ts_ms < (
            #[trigger] samples[k]).ts_ms,
        samples[i + 1].ts_ms - samples[i].ts_ms > 3 * config.interval_ms,
        existing.len() <= r < record_all(
            existing,
            ticks_of(samples, config),
            ids,
            gap as int,
        ).rows.len(),
    ensures
        ({
            let row = record_all(existing, ticks_of(samples, config), ids, gap as int).rows[r];
            row.end_ms < samples[i + 1].ts_ms || samples[i].ts_ms < row.start_ms
        }),
{
    crate::sampler::law_the_longest_pause_is_three_intervals(config, gap);
    lemma_rows_stop_at_a_break(existing, samples, config, ids, gap as int, i, r);
}

/// Steady use is one row: a stretch of active samples from `a` to `b` that all
/// saw one app and one window title, each no more than three intervals after the
/// one before, lies in a single row while the clock does not go back, and that
/// row carries what they saw.
pub proof fn law_steady_use_lies_in_one_row(
    existing: Seq<SpanRow>,
    samples: Seq<Sample>,
    config: Config,
    ids: Seq<i64>,
    gap: i64,
    a: int,
    b: int,
)
    requires
        call_ensures(crate::sampler::max_gap_ms, (&config,), gap),
        3 * config.interval_ms <= i64::MAX,
        fresh_ids(existing, ids, samples.len()),
        0 <= a <= b < samples.len(),
        forall|j: int, k: int|
            0 <= j <= k < samples.len() ==> (#[trigger] samples[j]).ts_ms <= (
            #[trigger] samples[k]).ts_ms,
        forall|i: int|
            a <= i <= b ==> {
                &&& !(#[trigger] samples[i]).locked
                &&& samples[i].idle_ms < config.idle_threshold_ms
                &&& samples[i].bundle_id.deep_view() == samples[a].bundle_id.deep_view()
                &&& samples[i].app_name.deep_view() == samples[a].app_name.deep_view()
                &&& samples[i].window_title.deep_view() == samples[a].window_title.deep_view()
            },
        forall|i: int, j: int|
            a <= i && j == i + 1 && j <= b ==> (#[trigger] samples[j]).ts_ms - (
            #[trigger] samples[i]).ts_ms <= 3 * config.interval_ms,
    ensures
        ({
            let rows = record_all(existing, ticks_of(samples, config), ids, gap as int).rows;
            exists|r: int|
                {
                    &&& existing.len() <= r < rows.len()
                    &&& (#[trigger] rows[r]).start_ms <= samples[a].ts_ms
                    &&& samples[b].ts_ms <= rows[r].end_ms
                    &&& rows[r].key.state == SpanState::Active
                    &&& rows[r].key.bundle_id == samples[a].bundle_id.deep_view()
                    &&& rows[r].key.app_name == samples[a].app_name.deep_view()
                    &&& rows[r].key.window_title == samples[a].window_title.deep_view()
                }
        }),
{
    let max_gap = gap as int;
    let ticks = ticks_of(samples, config);
    let pieces = runs(ticks, max_gap);
    let rows = record_all(existing, ticks, ids, max_gap).rows;
    crate::sampler::law_the_longest_pause_is_three_intervals(config, gap);
    law_table_holds_one_row_per_run(existing, ticks, ids, max_gap);
    law_runs_partition_the_ticks(ticks, max_gap);
    assert forall|i: int| a < i <= b implies !#[trigger] breaks(ticks, max_gap, i) by {
        assert(samples[i].ts_ms - samples[i - 1].ts_ms <= max_gap);
        assert(ticks[i].key == ticks[i - 1].key);
    }
    let k = lemma_run_around(ticks, max_gap, a, b);
    lemma_one_key_up_to(ticks, max_gap, k, a);
    assert(samples[pieces[k].0].ts_ms <= samples[a].ts_ms);
    assert(samples[b].ts_ms <= samples[pieces[k].1].ts_ms);
    assert(rows[existing.len() + k] == row_of(ticks, ids, pieces[k]));
}

/// While the clock rises, no row of the sampler reaches across a break.
proof fn lemma_rows_stop_at_a_break(
    existing: Seq<SpanRow>,
    samples: Seq<Sample>,
    config: Config,
    ids: Seq<i64>,
    max_gap: int,
    i: int,
    r: int,
)
    requires
        fresh_ids(existing, ids, samples.len()),
        0 <= i,
        i + 1 < samples.len(),
        forall|j: int, k: int|
            0 <= j < k < samples.len() ==> (#[trigger] samples[j]).ts_ms < (
            #[trigger] samples[k]).ts_ms,
        breaks(ticks_of(samples, config), max_gap, i + 1),
        existing.len() <= r < record_all(
            existing,
            ticks_of(samples, config),
            ids,
            max_gap,
        ).rows.len(),
    ensures
        ({
            let row = record_all(existing, ticks_of(samples, config), ids, max_gap).rows[r];
            row.end_ms < samples[i + 1].ts_ms || samples[i].ts_ms < row.start_ms
        }),
{
    let ticks = ticks_of(samples, config);
    let pieces = runs(ticks, max_gap);
    law_table_holds_one_row_per_run(existing, ticks, ids, max_gap);
    law_runs_partition_the_ticks(ticks, max_gap);
    let rows = record_all(existing, ticks, ids, max_gap).rows;
    let k = r - existing.len();
    assert(rows[r] == row_of(ticks, ids, pieces[k]));
    if pieces[k].0 <= i {
        assert(pieces[k].1 < i + 1);
        assert(samples[pieces[k].1].ts_ms < samples[i + 1].ts_ms);
    } else {
        assert(samples[i].ts_ms < samples[pieces[k].0].ts_ms);
    }
}

/// The run that holds a stretch of ticks without a break inside.
proof fn lemma_run_around(ticks: Seq<Tick>, max_gap: int, a: int, b: int) -> (k: int)
    requires
        0 <= a <= b < ticks.len(),
        forall|i: int| a < i <= b ==> !#[trigger] breaks(ticks, max_gap, i),
    ensures
        0 <= k < runs(ticks, max_gap).len(),
        runs(ticks, max_gap)[k].0 <= a,
        b <= runs(ticks, max_gap)[k].1,
    decreases ticks.len(),
{
    let before = ticks.drop_last();
    let n = ticks.len() - 1;
    law_runs_partition_the_ticks(before, max_gap);
    if b < n {
        assert forall|i: int| a < i <= b implies !#[trigger] breaks(before, max_gap, i) by {
            assert(!breaks(ticks, max_gap, i));
        }
        let k = lemma_run_around(before, max_gap, a, b);
        assert(runs(ticks, max_gap)[k].0 == runs(before, max_gap)[k].0);
        k
    } else if a < n {
        assert(!breaks(ticks, max_gap, n));
        assert forall|i: int| a < i <= n - 1 implies !#[trigger] breaks(before, max_gap, i) by {
            assert(!breaks(ticks, max_gap, i));
        }
        let k = lemma_run_around(before, max_gap, a, n - 1);
        assert(k == runs(before, max_gap).len() - 1);
        k
    } else {
        runs(ticks, max_gap).len() - 1
    }
}

/// Each tick of a run has the key of its first tick.
proof fn lemma_one_key_up_to(ticks: Seq<Tick>, max_gap: int, k: int, i: int)
    requires
        0 <= k < runs(ticks, max_gap).len(),
        runs(ticks, max_gap)[k].0 <= i <= runs(ticks, max_gap)[k].1,
    ensures
        0 <= i < ticks.len(),
        ticks[i].key == ticks[runs(ticks, max_gap)[k].0].key,
    decreases i - runs(ticks, max_gap)[k].0,
{
    law_runs_partition_the_ticks(ticks, max_gap);
    if i > runs(ticks, max_gap)[k].0 {
        assert(!breaks(ticks, max_gap, i));
        lemma_one_key_up_to(ticks, max_gap, k, i - 1);
    }
}

proof fn lemma_total_of_both(a: Seq<SpanRow>, b: Seq<SpanRow>, kind: spec_fn(KeyView) -> bool)
    ensures
        total_ms(a + b, kind) == total_ms(a, kind) + total_ms(b, kind),
    decreases b.len(),
{
    if b.len() == 0 {
        assert(a + b =~= a);
    } else {
        assert((a + b).drop_last() =~= a + b.drop_last());
        lemma_total_of_both(a, b.drop_last(), kind);
    }
}

proof fn lemma_total_of_spans(
    ticks: Seq<Tick>,
    ids: Seq<i64>,
    max_gap: int,
    kind: spec_fn(KeyView) -> bool,
)
    ensures
        total_ms(spans(ticks, ids, max_gap), kind) == observed_ms(ticks, max_gap, kind),
    decreases ticks.len(),
{
    if ticks.len() > 0 {
        let n = ticks.len() - 1;
        let old_spans = spans(ticks.drop_last(), ids, max_gap);
        let new_spans = spans(ticks, ids, max_gap);
        lemma_total_of_spans(ticks.drop_last(), ids, max_gap, kind);
        lemma_spans_after_a_tick(ticks, ids, max_gap);
        if breaks(ticks, max_gap, n) {
            assert(new_spans.drop_last() =~= old_spans);
        } else {
            assert(new_spans.drop_last() =~= old_spans.drop_last());
        }
    }
}

/// What one more tick adds to the rows of the runs.
proof fn lemma_spans_after_a_tick(ticks: Seq<Tick>, ids: Seq<i64>, max_gap: int)
    requires
        ticks.len() > 0,
    ensures
        ({
            let n = ticks.len() - 1;
            let old_spans = spans(ticks.drop_last(), ids, max_gap);
            if breaks(ticks, max_gap, n) {
                spans(ticks, ids, max_gap) == old_spans.push(row_of(ticks, ids, (n, n)))
            } else {
                &&& old_spans.len() > 0
                &&& old_spans.last().id == ids[runs(ticks.drop_last(), max_gap).last().0]
                &&& old_spans.last().end_ms == ticks[n - 1].ts
                &&& old_spans.last().key == ticks[n].key
                &&& spans(ticks, ids, max_gap) == old_spans.drop_last().push(
                    SpanRow { end_ms: ticks[n].ts, ..old_spans.last() },
                )
            }
        }),
{
    let before = ticks.drop_last();
    let n = ticks.len() - 1;
    let old_runs = runs(before, max_gap);
    let old_spans = spans(before, ids, max_gap);
    let new_spans = spans(ticks, ids, max_gap);
    law_runs_partition_the_ticks(before, max_gap);
    assert forall|k: int| 0 <= k < old_runs.len() implies row_of(ticks, ids, old_runs[k])
        == #[trigger] old_spans[k] by {}
    if breaks(ticks, max_gap, n) {
        assert(new_spans =~= old_spans.push(row_of(ticks, ids, (n, n))));
    } else {
        lemma_one_key_up_to(before, max_gap, old_runs.len() - 1, old_runs.last().1);
        assert(new_spans =~= old_spans.drop_last().push(
            SpanRow { end_ms: ticks[n].ts, ..old_spans.last() },
        ));
    }
}

/// Moving the end of the open span's row leaves every other row as it was.
proof fn lemma_only_the_last_row_moves(
    existing: Seq<SpanRow>,
    ticks: Seq<Tick>,
    ids: Seq<i64>,
    max_gap: int,
)
    requires
        ticks.len() > 0,
        fresh_ids(existing, ids, ticks.len()),
        !breaks(ticks, max_gap, ticks.len() - 1),
    ensures
        with_end(
            existing + spans(ticks.drop_last(), ids, max_gap),
            ids[runs(ticks.drop_last(), max_gap).last().0],
            ticks.last().ts,
        ) == existing + spans(ticks, ids, max_gap),
{
    let before = ticks.drop_last();
    let old_runs = runs(before, max_gap);
    let old_spans = spans(before, ids, max_gap);
    let last = old_runs.len() - 1;
    let id = ids[old_runs.last().0];
    law_runs_partition_the_ticks(before, max_gap);
    lemma_spans_after_a_tick(ticks, ids, max_gap);
    assert forall|k: int| 0 <= k < last implies (#[trigger] old_spans[k]).id != id by {
        assert(old_runs[k].0 <= old_runs[k].1);
        assert(old_runs[k].1 < old_runs[last].0);
    }
    assert forall|r: int| 0 <= r < existing.len() implies (#[trigger] existing[r]).id != id by {
        assert(0 <= old_runs[last].0 < ticks.len());
    }
    let moved = with_end(existing + old_spans, id, ticks.last().ts);
    let wanted = existing + spans(ticks, ids, max_gap);
    assert forall|r: int| 0 <= r < moved.len() implies moved[r] == wanted[r] by {
        if r >= existing.len() {
            let k = r - existing.len();
            assert((existing + old_spans)[r] == old_spans[k]);
        }
    }
    assert(moved =~= wanted);
}

} // verus!

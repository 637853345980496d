//! What the `screentime_usage` table holds after any number of ingests.
//!
//! The table is keyed by uuid. An ingest offers it the rows of a re-scanned
//! window one after the other; a row whose uuid the table holds is ignored, and
//! the rows that the inserts changed are summed by [`crate::screentime::tally`].
use vstd::prelude::*;

verus! {

/// A row of the table, without its uuid.
pub struct Usage {
    pub stream: Seq<char>,
    pub value: Seq<char>,
    pub start_ms: int,
    pub end_ms: int,
    pub device_id: Option<Seq<char>>,
}

/// A row that an ingest offers to the table.
pub struct Offer {
    pub uuid: Seq<char>,
    pub usage: Usage,
}

/// The table in the course of an ingest, and the rows inserted so far.
#[verifier::ext_equal]
pub struct Ingested {
    pub table: Map<Seq<char>, Usage>,
    pub inserted: nat,
}

/// The rows that offering a row changes: one where its uuid is new.
pub open spec fn changed(table: Map<Seq<char>, Usage>, offer: Offer) -> nat {
    if table.contains_key(offer.uuid) {
        0
    } else {
        1
    }
}

/// The table after a row has been offered to it.
pub open spec fn with_offer(table: Map<Seq<char>, Usage>, offer: Offer) -> Map<Seq<char>, Usage> {
    if table.contains_key(offer.uuid) {
        table
    } else {
        table.insert(offer.uuid, offer.usage)
    }
}

/// An ingest of the rows `offers` into `table`.
pub open spec fn ingest(table: Map<Seq<char>, Usage>, offers: Seq<Offer>) -> Ingested
    decreases offers.len(),
{
    if offers.len() == 0 {
        Ingested { table, inserted: 0 }
    } else {
        let before = ingest(table, offers.drop_last());
        Ingested {
            table: with_offer(before.table, offers.last()),
            inserted: before.inserted + changed(before.table, offers.last()),
        }
    }
}

/// An ingest keeps every row that the table held, and afterwards the table holds
/// the uuid of every row it was offered, and no other new one.
pub proof fn law_an_ingest_only_adds(table: Map<Seq<char>, Usage>, offers: Seq<Offer>)
    ensures
        forall|uuid: Seq<char>| #[trigger]
            table.contains_key(uuid) ==> ingest(table, offers).table.contains_key(uuid) && ingest(
                table,
                offers,
            ).table[uuid] == table[uuid],
        forall|i: int|
            0 <= i < offers.len() ==> ingest(table, offers).table.contains_key(
                (#[trigger] offers[i]).uuid,
            ),
        forall|uuid: Seq<char>| #[trigger]
            ingest(table, offers).table.contains_key(uuid) ==> table.contains_key(uuid) || exists|
                i: int,
            |
                0 <= i < offers.len() && (#[trigger] offers[i]).uuid == uuid,
    decreases offers.len(),
{
    if offers.len() > 0 {
        let before = offers.drop_last();
        law_an_ingest_only_adds(table, before);
        let n = offers.len() - 1;
        assert forall|i: int| 0 <= i < offers.len() implies ingest(
            table,
            offers,
        ).table.contains_key((#[trigger] offers[i]).uuid) by {
            if i < n {
                assert(before[i] == offers[i]);
            }
        }
        assert forall|uuid: Seq<char>| #[trigger]
            ingest(table, offers).table.contains_key(uuid) implies table.contains_key(uuid)
            || exists|i: int| 0 <= i < offers.len() && (#[trigger] offers[i]).uuid == uuid by {
            if ingest(table, before).table.contains_key(uuid) {
                if !table.contains_key(uuid) {
                    let i = choose|i: int|
                        0 <= i < before.len() && (#[trigger] before[i]).uuid == uuid;
                    assert(offers[i].uuid == uuid);
                }
            } else {
                assert(offers[n].uuid == uuid);
            }
        }
    }
}

/// A row that an ingest added is that of the first offer with its uuid.
pub proof fn law_a_new_row_is_the_first_offer(
    table: Map<Seq<char>, Usage>,
    offers: Seq<Offer>,
    uuid: Seq<char>,
)
    requires
        !table.contains_key(uuid),
        ingest(table, offers).table.contains_key(uuid),
    ensures
        exists|i: int| #[trigger]
            is_first_offer(offers, i, uuid) && ingest(table, offers).table[uuid]
                == offers[i].usage,
    decreases offers.len(),
{
    let before = offers.drop_last();
    let n = offers.len() - 1;
    law_an_ingest_only_adds(table, before);
    if ingest(table, before).table.contains_key(uuid) {
        law_a_new_row_is_the_first_offer(table, before, uuid);
        let i = choose|i: int| #[trigger]
            is_first_offer(before, i, uuid) && ingest(table, before).table[uuid]
                == before[i].usage;
        assert forall|j: int| 0 <= j < i implies (#[trigger] offers[j]).uuid != uuid by {
            assert(before[j].uuid != uuid);
        }
        assert(offers[i] == before[i]);
        assert(is_first_offer(offers, i, uuid));
    } else {
        assert forall|j: int| 0 <= j < n implies (#[trigger] offers[j]).uuid != uuid by {
            assert(ingest(table, before).table.contains_key(before[j].uuid));
        }
        assert(is_first_offer(offers, n, uuid));
    }
}

/// Whether the offer at `i` is the first one with `uuid`.
pub open spec fn is_first_offer(offers: Seq<Offer>, i: int, uuid: Seq<char>) -> bool {
    &&& 0 <= i < offers.len()
    &&& offers[i].uuid == uuid
    &&& forall|j: int| 0 <= j < i ==> (#[trigger] offers[j]).uuid != uuid
}

/// An ingest counts the rows that are newly in the table.
pub proof fn law_an_ingest_counts_the_new_rows(table: Map<Seq<char>, Usage>, offers: Seq<Offer>)
    requires
        table.dom().finite(),
    ensures
        ingest(table, offers).table.dom().finite(),
        ingest(table, offers).inserted == ingest(table, offers).table.dom().len()
            - table.dom().len(),
    decreases offers.len(),
{
    if offers.len() > 0 {
        let before = ingest(table, offers.drop_last());
        law_an_ingest_counts_the_new_rows(table, offers.drop_last());
        let offer = offers.last();
        if !before.table.contains_key(offer.uuid) {
            assert(before.table.insert(offer.uuid, offer.usage).dom() =~= before.table.dom().insert(
                offer.uuid,
            ));
        }
    }
}

/// An ingest is idempotent: offering rows that were all offered before changes
/// nothing, and counts no row as new. Re-scanning a window that overlaps the
/// last one is therefore harmless.
pub proof fn law_a_rescan_changes_nothing(
    table: Map<Seq<char>, Usage>,
    offers: Seq<Offer>,
    again: Seq<Offer>,
)
    requires
        forall|i: int|
            0 <= i < again.len() ==> exists|j: int|
                0 <= j < offers.len() && offers[j].uuid == (#[trigger] again[i]).uuid,
    ensures
        ingest(ingest(table, offers).table, again) == (Ingested {
            table: ingest(table, offers).table,
            inserted: 0,
        }),
    decreases again.len(),
{
    law_an_ingest_only_adds(table, offers);
    if again.len() > 0 {
        let n = again.len() - 1;
        assert forall|i: int| 0 <= i < n implies exists|j: int|
            0 <= j < offers.len() && offers[j].uuid == (#[trigger] again.drop_last()[i]).uuid by {
            assert(again.drop_last()[i] == again[i]);
        }
        law_a_rescan_changes_nothing(table, offers, again.drop_last());
        let j = choose|j: int| 0 <= j < offers.len() && offers[j].uuid == again[n].uuid;
        assert(ingest(table, offers).table.contains_key(offers[j].uuid));
    }
}

/// Usage as the system has recorded it.
pub struct Recorded {
    /// The whole second of Unix time in which it started.
    pub start_unix_s: int,
    /// The row that it makes.
    pub offer: Offer,
}

/// Whether recorded usage lies in the window that is re-scanned, given the start
/// of the latest usage that is stored.
pub open spec fn in_window(recorded: Recorded, latest_unix_s: int) -> bool {
    recorded.start_unix_s >= crate::screentime::window_start(latest_unix_s)
}

/// The rows that an ingest offers: those of the recorded usage in its window.
pub open spec fn scan(source: Seq<Recorded>, latest_unix_s: int) -> Seq<Offer> {
    source.filter(|recorded: Recorded| in_window(recorded, latest_unix_s)).map_values(
        |recorded: Recorded| recorded.offer,
    )
}

/// Whether `start_ms` is the latest start in the table.
pub open spec fn is_latest_start(table: Map<Seq<char>, Usage>, start_ms: int) -> bool {
    &&& exists|uuid: Seq<char>| #[trigger]
        table.contains_key(uuid) && table[uuid].start_ms == start_ms
    &&& forall|uuid: Seq<char>| #[trigger]
        table.contains_key(uuid) ==> table[uuid].start_ms <= start_ms
}

/// Whether `latest_unix_s` is what an ingest takes for the latest stored start:
/// that in whole seconds, rounded toward zero, and zero for an empty table.
pub open spec fn is_latest(table: Map<Seq<char>, Usage>, latest_unix_s: int) -> bool {
    if table.dom().is_empty() {
        latest_unix_s == 0
    } else {
        exists|start_ms: int| #[trigger]
            is_latest_start(table, start_ms) && latest_unix_s == crate::report::quotient(
                start_ms,
                1000,
            )
    }
}

/// The window to re-scan never moves back: after an ingest it starts no earlier
/// than before. The one exception is a first ingest whose latest usage started a
/// second or more before 1970, since an empty table counts as one whose latest
/// usage started with that year.
pub proof fn law_the_window_never_moves_back(
    table: Map<Seq<char>, Usage>,
    offers: Seq<Offer>,
    before: int,
    after: int,
)
    requires
        is_latest(table, before),
        is_latest(ingest(table, offers).table, after),
        table.dom().is_empty() ==> after >= 0,
    ensures
        before <= after,
        crate::screentime::window_start(before) <= crate::screentime::window_start(after),
{
    let grown = ingest(table, offers).table;
    law_an_ingest_only_adds(table, offers);
    if !table.dom().is_empty() {
        let old_ms = choose|start_ms: int| #[trigger]
            is_latest_start(table, start_ms) && before == crate::report::quotient(start_ms, 1000);
        let uuid = choose|uuid: Seq<char>| #[trigger]
            table.contains_key(uuid) && table[uuid].start_ms == old_ms;
        assert(grown.contains_key(uuid) && grown[uuid].start_ms == old_ms);
        assert(grown.dom().contains(uuid));
        let new_ms = choose|start_ms: int| #[trigger]
            is_latest_start(grown, start_ms) && after == crate::report::quotient(start_ms, 1000);
        assert(old_ms <= new_ms);
    }
}

/// An ingest of recorded usage that has not changed since the last one changes
/// nothing, and counts no row as new: the window of the second one reaches no
/// further back, so that it offers no row that the first one did not.
pub proof fn law_an_unchanged_source_adds_nothing(
    table: Map<Seq<char>, Usage>,
    source: Seq<Recorded>,
    before: int,
    after: int,
)
    requires
        is_latest(table, before),
        is_latest(ingest(table, scan(source, before)).table, after),
        table.dom().is_empty() ==> after >= 0,
    ensures
        ({
            let grown = ingest(table, scan(source, before)).table;
            ingest(grown, scan(source, after)) == Ingested {
                table: grown,
                inserted: 0,
            }
        }),
{
    let offers = scan(source, before);
    let again = scan(source, after);
    law_the_window_never_moves_back(table, offers, before, after);
    let first = |recorded: Recorded| in_window(recorded, before);
    let second = |recorded: Recorded| in_window(recorded, after);
    assert forall|i: int| 0 <= i < again.len() implies exists|j: int|
        0 <= j < offers.len() && offers[j].uuid == (#[trigger] again[i]).uuid by {
        let recorded = source.filter(second)[i];
        source.lemma_filter_pred(second, i);
        assert(source.filter(second).contains(recorded));
        source.lemma_filter_contains_rev(second, recorded);
        let k = choose|k: int| 0 <= k < source.len() && source[k] == recorded;
        source.lemma_filter_contains(first, k);
        let j = choose|j: int|
            0 <= j < source.filter(first).len() && source.filter(first)[j] == recorded;
        assert(offers[j].uuid == again[i].uuid);
    }
    law_a_rescan_changes_nothing(table, offers, again);
}

} // verus!

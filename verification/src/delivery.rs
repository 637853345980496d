//! What a whole request to the ingest API stores, and what it is answered.
//!
//! A delivery performs the actions of a [`crate::server::Batch`] one after the
//! other, with an outcome from the database for each insert.
use crate::json::Json;
use crate::server::{
    ActionView, Admission, Batch, BatchAction, BatchView, EventView, Header, HeaderView,
    IncomingEvent, Method, Reply, ReplyView, RowView,
};
use vstd::prelude::*;

verus! {

/// The rows that a request stored and the answer that it got, if it has got one.
#[verifier::ext_equal]
pub struct Delivery {
    pub rows: Seq<RowView>,
    pub reply: Option<ReplyView>,
}

/// A batch performed against the outcomes of its inserts: the rows changed, or
/// the message of a failure.
pub open spec fn deliver(batch: BatchView, outcomes: Seq<Result<nat, Seq<char>>>) -> Delivery
    decreases outcomes.len(),
{
    match crate::server::next_action(batch) {
        ActionView::Respond(reply) => Delivery { rows: Seq::empty(), reply: Some(reply) },
        ActionView::Insert(row) => if outcomes.len() == 0 {
            Delivery { rows: Seq::empty(), reply: None }
        } else {
            match outcomes[0] {
                Ok(changed) => {
                    let rest = deliver(
                        crate::server::after_insert(batch, changed),
                        outcomes.drop_first(),
                    );
                    Delivery { rows: seq![row] + rest.rows, reply: rest.reply }
                },
                Err(message) => Delivery {
                    rows: Seq::empty(),
                    reply: Some(crate::server::store_failed(message)),
                },
            }
        },
    }
}

/// A batch of which nothing is stored yet.
pub open spec fn arrived(events: Seq<EventView>, now_ms: i64) -> BatchView {
    BatchView { events, now_ms, next: 0, inserted: 0 }
}

/// The rows of the first `count` events.
pub open spec fn first_rows(events: Seq<EventView>, now_ms: i64, count: nat) -> Seq<RowView> {
    events.take(count as int).map_values(|event: EventView| crate::server::row_of(event, now_ms))
}

/// The rows that the first `count` inserts changed.
pub open spec fn changed_rows(outcomes: Seq<Result<nat, Seq<char>>>, count: nat) -> nat
    decreases count,
{
    if count == 0 {
        0
    } else {
        changed_rows(outcomes, (count - 1) as nat) + outcomes[count - 1]->Ok_0
    }
}

/// Whether the first `count` events have a kind and their inserts go well.
pub open spec fn goes_well(
    events: Seq<EventView>,
    outcomes: Seq<Result<nat, Seq<char>>>,
    count: nat,
) -> bool {
    &&& count <= events.len()
    &&& count <= outcomes.len()
    &&& forall|i: int| 0 <= i < count ==> (#[trigger] events[i]).kind is Some
    &&& forall|i: int| 0 <= i < count ==> (#[trigger] outcomes[i]) is Ok
}

/// A request whose events all have a kind, and whose inserts all go well, stores
/// every event, in order, and is told how many rows that were.
pub proof fn law_a_good_request_stores_every_event(
    events: Seq<EventView>,
    now_ms: i64,
    outcomes: Seq<Result<nat, Seq<char>>>,
)
    requires
        goes_well(events, outcomes, events.len()),
    ensures
        deliver(arrived(events, now_ms), outcomes) == (Delivery {
            rows: first_rows(events, now_ms, events.len()),
            reply: Some(crate::server::stored(changed_rows(outcomes, events.len()))),
        }),
{
    let count = events.len();
    lemma_good_part(events, now_ms, outcomes, count);
    assert(first_rows(events, now_ms, count) + Seq::<RowView>::empty() =~= first_rows(
        events,
        now_ms,
        count,
    ));
}

/// A posted array of objects that all have a string as their kind is stored item
/// by item, where each insert adds its row: every row has the kind, device and
/// payload of its item, and the answer counts the items.
pub proof fn law_a_posted_array_is_stored_item_by_item(
    items: Seq<Json>,
    now_ms: i64,
    outcomes: Seq<Result<nat, Seq<char>>>,
)
    requires
        outcomes.len() == items.len(),
        forall|i: int|
            0 <= i < items.len() ==> crate::server::member_text(#[trigger] items[i], "kind"@)
                is Some,
        forall|i: int| 0 <= i < outcomes.len() ==> #[trigger] outcomes[i] == Ok::<nat, Seq<char>>(1),
    ensures
        ({
            let delivery = deliver(
                arrived(crate::server::events_of(Json::Array(items)), now_ms),
                outcomes,
            );
            &&& delivery.reply == Some(crate::server::stored(items.len()))
            &&& delivery.rows == items.map_values(
                |item: Json| crate::server::row_of(crate::server::event_of(item), now_ms),
            )
        }),
{
    let events = crate::server::events_of(Json::Array(items));
    law_a_good_request_stores_every_event(events, now_ms, outcomes);
    lemma_one_row_each(outcomes, items.len());
    assert(first_rows(events, now_ms, events.len()) =~= items.map_values(
        |item: Json| crate::server::row_of(crate::server::event_of(item), now_ms),
    ));
}

/// The first event without a kind ends a request: the events before it stay
/// stored, none after it is, and the answer says what is missing.
pub proof fn law_an_event_without_kind_ends_the_request(
    events: Seq<EventView>,
    now_ms: i64,
    outcomes: Seq<Result<nat, Seq<char>>>,
    at: nat,
)
    requires
        at < events.len(),
        events[at as int].kind is None,
        goes_well(events, outcomes, at),
    ensures
        deliver(arrived(events, now_ms), outcomes) == (Delivery {
            rows: first_rows(events, now_ms, at),
            reply: Some(crate::server::kind_missing()),
        }),
{
    lemma_good_part(events, now_ms, outcomes, at);
    assert(first_rows(events, now_ms, at) + Seq::<RowView>::empty() =~= first_rows(
        events,
        now_ms,
        at,
    ));
}

/// The first insert that fails ends a request: the events before it stay stored,
/// none after it is, and the answer passes the message on.
pub proof fn law_a_failed_insert_ends_the_request(
    events: Seq<EventView>,
    now_ms: i64,
    outcomes: Seq<Result<nat, Seq<char>>>,
    at: nat,
    message: Seq<char>,
)
    requires
        at < events.len(),
        at < outcomes.len(),
        events[at as int].kind is Some,
        outcomes[at as int] == Err::<nat, Seq<char>>(message),
        goes_well(events, outcomes, at),
    ensures
        deliver(arrived(events, now_ms), outcomes) == (Delivery {
            rows: first_rows(events, now_ms, at),
            reply: Some(crate::server::store_failed(message)),
        }),
{
    lemma_good_part(events, now_ms, outcomes, at);
    assert(outcomes.skip(at as int)[0] == outcomes[at as int]);
    assert(first_rows(events, now_ms, at) + Seq::<RowView>::empty() =~= first_rows(
        events,
        now_ms,
        at,
    ));
}

/// Every request is answered, after no more inserts than it has events.
pub proof fn law_every_request_is_answered(
    events: Seq<EventView>,
    now_ms: i64,
    outcomes: Seq<Result<nat, Seq<char>>>,
)
    requires
        outcomes.len() == events.len(),
    ensures
        deliver(arrived(events, now_ms), outcomes).reply is Some,
{
    lemma_answered(arrived(events, now_ms), outcomes);
}

/// A body that is one event and a body that is an array of just that event are
/// the same request.
pub proof fn law_one_event_needs_no_array(value: Json)
    requires
        !(value is Array),
    ensures
        crate::server::events_of(Json::Array(seq![value])) == crate::server::events_of(value),
{
    assert(crate::server::events_of(Json::Array(seq![value])) =~= crate::server::events_of(value));
}

/// A request that is answered with status 200 has stored every value that its
/// body posts, in order, and each row gives the posted payload back: the stored
/// text is JSON that reads as the value of the `payload` key, as long as every
/// number in that is an integer. A value without that key is stored without a
/// payload. `events` is what [`crate::server::read_body`] made of the body.
pub proof fn law_a_stored_payload_reads_back(
    body: Option<String>,
    events: Vec<IncomingEvent>,
    now_ms: i64,
    outcomes: Seq<Result<nat, Seq<char>>>,
)
    requires
        call_ensures(crate::server::read_body, (&body,), Ok::<Vec<IncomingEvent>, Reply>(events)),
        deliver(arrived(crate::server::event_views(events@), now_ms), outcomes).reply
            matches Some(reply) && reply.status == 200,
    ensures
        ({
            let rows = deliver(
                arrived(crate::server::event_views(events@), now_ms),
                outcomes,
            ).rows;
            &&& body matches Some(text)
            &&& crate::json::parsed(text@) matches Ok(value)
            &&& rows.len() == crate::server::items_of(value).len()
            &&& forall|i: int|
                0 <= i < rows.len() ==> crate::server::keeps_payload(
                    crate::server::items_of(value)[i],
                    (#[trigger] rows[i]).payload,
                )
        }),
{
    let views = crate::server::event_views(events@);
    lemma_stored_to_the_end(arrived(views, now_ms), outcomes);
    assert(views.skip(0) =~= views);
    let rows = deliver(arrived(views, now_ms), outcomes).rows;
    let items = crate::server::items_of(crate::json::parsed(body->0@)->Ok_0);
    assert forall|i: int| 0 <= i < rows.len() implies crate::server::keeps_payload(
        items[i],
        (#[trigger] rows[i]).payload,
    ) by {
        assert(views[i] == events@[i]@);
        assert(rows[i].payload == events@[i]@.payload);
    }
}

/// An event is stored under its own time where it gives one as an integer, and
/// under the time of its arrival where it does not.
pub proof fn law_time_defaults_to_arrival(value: Json, now_ms: i64)
    ensures
        crate::server::row_of(crate::server::event_of(value), now_ms).ts_ms
            == match crate::server::member_integer(value, "ts_ms"@) {
            Some(ts_ms) => ts_ms,
            None => now_ms,
        },
{
}

/// Only a `POST` to `/events` gets its body read, and only if it is authorized;
/// without a token that is required, every such request is.
pub proof fn law_the_token_guards_the_store(
    method: Method,
    url: Seq<char>,
    headers: Seq<HeaderView>,
    token: Option<Seq<char>>,
)
    ensures
        crate::server::admission(method, url, headers, token) is None <==> (method == Method::Post
            && url == "/events"@ && crate::server::authorized(headers, token)),
        method == Method::Post && url == "/events"@ && token is None
            ==> crate::server::admission(method, url, headers, token) is None,
{
    reveal_strlit("/events");
    reveal_strlit("/health");
    assert("/events"@[1] != "/health"@[1]);
}

/// A token is required as soon as it is set, be it empty: a `POST` to `/events`
/// without an `Authorization` header, or with another value in the first one
/// than that bearer token, is refused as unauthorized.
pub proof fn law_a_set_token_is_required(headers: Seq<HeaderView>, token: Seq<char>)
    requires
        forall|i: int| #[trigger]
            crate::server::is_authorization(headers, i) ==> headers[i].value != "Bearer "@ + token,
    ensures
        crate::server::admission(Method::Post, "/events"@, headers, Some(token)) == Some(
            crate::server::unauthorized(),
        ),
{
}

/// A health check is answered the same whether or not a token is required.
pub proof fn law_health_needs_no_token(headers: Seq<HeaderView>, token: Option<Seq<char>>)
    ensures
        crate::server::admission(Method::Get, "/health"@, headers, token) == Some(
            crate::server::healthy(),
        ),
{
}

/// Whether two characters are the same, or one ASCII letter in both cases.
pub open spec fn alike(c: char, d: char) -> bool {
    ||| c == d
    ||| 'A' <= c <= 'Z' && d as int == c as int + ('a' as int - 'A' as int)
    ||| 'A' <= d <= 'Z' && c as int == d as int + ('a' as int - 'A' as int)
}

/// Whether the name of a header is `Authorization`, in any case.
pub open spec fn names_authorization(field: Seq<char>) -> bool {
    &&& field.len() == "Authorization"@.len()
    &&& forall|j: int| 0 <= j < field.len() ==> alike(#[trigger] field[j], "Authorization"@[j])
}

/// The bearer token opens the store, whatever headers come before or behind it:
/// a `POST` to `/events` gets its body read where the first header that is named
/// `Authorization`, in any case, has the value `Bearer`, a space and the token.
pub proof fn law_the_bearer_token_lets_in(
    url: &str,
    headers: Vec<Header>,
    token: String,
    i: int,
    decision: Admission,
)
    requires
        call_ensures(
            crate::server::screen_request,
            (Method::Post, url, &headers, &Some(token)),
            decision,
        ),
        url@ == "/events"@,
        0 <= i < headers@.len(),
        names_authorization(headers@[i].field@),
        forall|j: int| 0 <= j < i ==> !names_authorization((#[trigger] headers@[j]).field@),
        headers@[i].value@ == "Bearer "@ + token@,
    ensures
        decision is ReadBody,
{
    let views = crate::server::header_views(headers@);
    lemma_authorization(headers@[i].field@);
    assert(views[i] == headers@[i]@);
    assert forall|j: int| 0 <= j < i implies !crate::server::same_but_for_case(
        "Authorization"@,
        (#[trigger] views[j]).field,
    ) by {
        assert(views[j] == headers@[j]@);
        lemma_authorization(headers@[j].field@);
    }
    assert(crate::server::is_authorization(views, i));
    reveal_strlit("/events");
    reveal_strlit("/health");
    assert("/events"@[1] != "/health"@[1]);
}

/// Without the bearer token the store stays closed: where a token is set, a
/// `POST` to `/events` is answered 401 if none of its headers is named
/// `Authorization`, or if the first one that is has any other value.
pub proof fn law_any_other_credential_is_refused(
    url: &str,
    headers: Vec<Header>,
    token: String,
    decision: Admission,
)
    requires
        call_ensures(
            crate::server::screen_request,
            (Method::Post, url, &headers, &Some(token)),
            decision,
        ),
        url@ == "/events"@,
        forall|i: int|
            0 <= i < headers@.len() && names_authorization((#[trigger] headers@[i]).field@) ==> {
                ||| headers@[i].value@ != "Bearer "@ + token@
                ||| exists|j: int|
                    0 <= j < i && names_authorization((#[trigger] headers@[j]).field@)
            },
    ensures
        decision matches Admission::Answer(reply) && reply.status == 401 && reply.body@
            == "{\"error\":\"bad or missing bearer token\"}"@,
{
    let views = crate::server::header_views(headers@);
    assert forall|i: int| #[trigger] crate::server::is_authorization(views, i) implies views[i].value
        != "Bearer "@ + token@ by {
        assert(views[i] == headers@[i]@);
        lemma_authorization(headers@[i].field@);
        if exists|j: int| 0 <= j < i && names_authorization((#[trigger] headers@[j]).field@) {
            let j = choose|j: int|
                0 <= j < i && names_authorization((#[trigger] headers@[j]).field@);
            assert(views[j] == headers@[j]@);
            lemma_authorization(headers@[j].field@);
        }
    }
    reveal_strlit("/events");
    reveal_strlit("/health");
    assert("/events"@[1] != "/health"@[1]);
}

/// Where no token is set, every `POST` to `/events` gets its body read, whatever
/// its headers are.
pub proof fn law_without_a_token_anyone_may_post(
    url: &str,
    headers: Vec<Header>,
    decision: Admission,
)
    requires
        call_ensures(
            crate::server::screen_request,
            (Method::Post, url, &headers, &None),
            decision,
        ),
        url@ == "/events"@,
    ensures
        decision is ReadBody,
{
    reveal_strlit("/events");
    reveal_strlit("/health");
    assert("/events"@[1] != "/health"@[1]);
}

/// A `GET` of `/health` is answered 200, and any other request that is no `POST`
/// to `/events` 404, whatever the headers and the token are.
pub proof fn law_other_requests_are_answered_at_once(
    method: Method,
    url: &str,
    headers: Vec<Header>,
    token: Option<String>,
    decision: Admission,
)
    requires
        call_ensures(crate::server::screen_request, (method, url, &headers, &token), decision),
        method != Method::Post || url@ != "/events"@,
    ensures
        method == Method::Get && url@ == "/health"@ ==> (decision matches Admission::Answer(reply)
            && reply.status == 200 && reply.body@ == "{\"ok\":true}"@),
        method != Method::Get || url@ != "/health"@ ==> (decision matches Admission::Answer(reply)
            && reply.status == 404 && reply.body@
            == "{\"error\":\"POST /events or GET /health\"}"@),
{
}

/// Whether a JSON value is an object that has `part` under `name`.
pub open spec fn has(value: Json, name: Seq<char>, part: Json) -> bool {
    value matches Json::Object(members) && members.contains_key(name) && members[name] == part
}

/// Whether `item` is what a body posts at `i`: an item of an array, or else, as
/// the first and only one, the body itself.
pub open spec fn posts(body: Json, i: int, item: Json) -> bool {
    match body {
        Json::Array(items) => 0 <= i < items.len() && items[i] == item,
        value => i == 0 && value == item,
    }
}

/// A body makes one event for each value that it posts. The event's kind and
/// device are the strings under `kind` and `device`, its time is the 64-bit
/// integer under `ts_ms`, its payload is the printed value under `payload`; what
/// is missing there, or of another type, is missing in the event.
pub proof fn law_an_event_says_what_was_posted(
    body: Option<String>,
    events: Vec<IncomingEvent>,
    value: Json,
    i: int,
    item: Json,
)
    requires
        call_ensures(crate::server::read_body, (&body,), Ok::<Vec<IncomingEvent>, Reply>(events)),
        body matches Some(text) && crate::json::parsed(text@) == Ok::<Json, Seq<char>>(value),
        posts(value, i, item),
    ensures
        events@.len() == match value {
            Json::Array(items) => items.len(),
            _ => 1,
        },
        0 <= i < events@.len(),
        forall|kind: Seq<char>|
            events@[i].kind.deep_view() == Some(kind) <==> #[trigger] has(
                item,
                "kind"@,
                Json::Text(kind),
            ),
        forall|device: Seq<char>|
            events@[i].device.deep_view() == Some(device) <==> #[trigger] has(
                item,
                "device"@,
                Json::Text(device),
            ),
        forall|ts_ms: i64|
            events@[i].ts_ms == Some(ts_ms) <==> #[trigger] has(
                item,
                "ts_ms"@,
                Json::Integer(ts_ms as int),
            ),
        forall|posted: Json| #[trigger]
            has(item, "payload"@, posted) ==> events@[i].payload.deep_view() == Some(
                crate::json::printed(posted),
            ) && (crate::json::whole(posted) ==> crate::json::reads_as(
                crate::json::printed(posted),
                posted,
            )),
        events@[i].payload is Some ==> exists|posted: Json| #[trigger]
            has(item, "payload"@, posted),
{
    let views = crate::server::event_views(events@);
    assert(crate::server::items_of(value)[i] == item);
    assert(views.len() == events@.len());
    assert(views[i] == events@[i]@);
    assert(views[i] == crate::server::event_of(item));
    assert(crate::server::keeps_payload(item, events@[i]@.payload));
    if let Some(posted) = crate::json::member(item, "payload"@) {
        assert(has(item, "payload"@, posted));
    }
}

/// A body that could not be read is answered 400, and so is one that is not
/// JSON, with what the parser says of it; no other body is refused.
pub proof fn law_only_unreadable_bodies_are_refused(
    body: Option<String>,
    outcome: Result<Vec<IncomingEvent>, Reply>,
)
    requires
        call_ensures(crate::server::read_body, (&body,), outcome),
    ensures
        outcome is Ok <==> (body matches Some(text) && crate::json::parsed(text@) is Ok),
        body is None ==> (outcome matches Err(reply) && reply.status == 400 && reply.body@
            == "{\"error\":\"unreadable body\"}"@),
        body matches Some(text) ==> (crate::json::parsed(text@) matches Err(message) ==> (
        outcome matches Err(reply) && reply.status == 400 && reply.body@
            == "{\"error\":\"invalid json: "@ + message + "\"}"@)),
{
}

/// Every value that is stored becomes a row of its own, in order, whatever
/// becomes of the rest of the request: the row's kind is the string under
/// `kind`, its device the string under `device` or none, its time the 64-bit
/// integer under `ts_ms` or else the time of arrival, and its payload the
/// printed value under `payload`, or none.
pub proof fn law_a_stored_row_says_what_was_posted(
    body: Option<String>,
    events: Vec<IncomingEvent>,
    value: Json,
    now_ms: i64,
    outcomes: Seq<Result<nat, Seq<char>>>,
    i: int,
    item: Json,
)
    requires
        call_ensures(crate::server::read_body, (&body,), Ok::<Vec<IncomingEvent>, Reply>(events)),
        body matches Some(text) && crate::json::parsed(text@) == Ok::<Json, Seq<char>>(value),
        0 <= i < deliver(
            arrived(crate::server::event_views(events@), now_ms),
            outcomes,
        ).rows.len(),
        posts(value, i, item),
    ensures
        ({
            let row = deliver(
                arrived(crate::server::event_views(events@), now_ms),
                outcomes,
            ).rows[i];
            &&& has(item, "kind"@, Json::Text(row.kind))
            &&& forall|device: Seq<char>|
                row.device == Some(device) <==> #[trigger] has(
                    item,
                    "device"@,
                    Json::Text(device),
                )
            &&& forall|ts_ms: i64| #[trigger]
                has(item, "ts_ms"@, Json::Integer(ts_ms as int)) ==> row.ts_ms == ts_ms
            &&& (forall|ts_ms: i64| !#[trigger] has(item, "ts_ms"@, Json::Integer(ts_ms as int)))
                ==> row.ts_ms == now_ms
            &&& forall|posted: Json| #[trigger]
                has(item, "payload"@, posted) ==> row.payload == Some(
                    crate::json::printed(posted),
                )
            &&& row.payload is Some ==> exists|posted: Json| #[trigger]
                has(item, "payload"@, posted)
        }),
{
    let views = crate::server::event_views(events@);
    law_an_event_says_what_was_posted(body, events, value, i, item);
    lemma_rows_in_order(arrived(views, now_ms), outcomes);
    let row = deliver(arrived(views, now_ms), outcomes).rows[i];
    assert(views[i] == events@[i]@);
    assert(row == crate::server::row_of(views[i], now_ms));
    if views[i].ts_ms is Some {
        assert(has(item, "ts_ms"@, Json::Integer(views[i].ts_ms->0 as int)));
    }
}

/// A batch starts with the events as they came and nothing stored.
pub proof fn law_a_batch_starts_with_all_its_events(
    events: Vec<IncomingEvent>,
    now_ms: i64,
    batch: Batch,
)
    requires
        call_ensures(Batch::new, (events, now_ms), batch),
    ensures
        batch@.now_ms == now_ms,
        batch@.next == 0,
        batch@.inserted == 0,
        batch@.events.len() == events@.len(),
        forall|i: int|
            0 <= i < events@.len() ==> {
                &&& (#[trigger] batch@.events[i]).kind == events@[i].kind.deep_view()
                &&& batch@.events[i].ts_ms == events@[i].ts_ms
                &&& batch@.events[i].device == events@[i].device.deep_view()
                &&& batch@.events[i].payload == events@[i].payload.deep_view()
            },
{
}

/// A batch tells how many rows it has stored.
pub proof fn law_a_batch_tells_what_it_stored(batch: Batch, rows: usize)
    requires
        call_ensures(Batch::inserted, (&batch,), rows),
    ensures
        rows == batch@.inserted,
{
}

/// A batch asks for its next event to be stored: as a row with the event's kind,
/// device and payload, and with the event's time or else that of its arrival. An
/// event without a kind is answered 400 instead, and a batch at its end 200 with
/// the number of rows that were stored.
pub proof fn law_a_batch_stores_its_next_event(batch: Batch, action: BatchAction)
    requires
        call_ensures(Batch::action, (&batch,), action),
    ensures
        batch@.next < batch@.events.len() ==> ({
            let event = batch@.events[batch@.next as int];
            match event.kind {
                Some(kind) => action matches BatchAction::Insert(row) && {
                    &&& row.kind@ == kind
                    &&& row.device.deep_view() == event.device
                    &&& row.payload.deep_view() == event.payload
                    &&& event.ts_ms is Some ==> event.ts_ms == Some(row.ts_ms)
                    &&& event.ts_ms is None ==> row.ts_ms == batch@.now_ms
                },
                None => action matches BatchAction::Respond(reply) && reply.status == 400
                    && reply.body@ == "{\"error\":\"each event needs a string 'kind'\"}"@,
            }
        }),
        batch@.next >= batch@.events.len() ==> (action matches BatchAction::Respond(reply)
            && reply.status == 200 && reply.body@ == "{\"ok\":true,\"inserted\":"@
            + crate::text::decimal(batch@.inserted) + "}"@),
{
}

/// After an insert that went well, a batch has stored one event more, and as many
/// rows more as the insert changed; nothing else about it changes, and it asks
/// for what [`Batch::action`] asks for then. After a failed insert the batch is
/// as it was, and the request is answered 500 with the message.
pub proof fn law_a_batch_moves_on_after_each_insert()
    ensures
        forall|batch: &mut Batch, rows: usize, action: BatchAction| #[trigger]
            call_ensures(Batch::advance, (batch, Ok::<usize, String>(rows)), action) ==> {
                &&& (*final(batch))@.events == (*batch)@.events
                &&& (*final(batch))@.now_ms == (*batch)@.now_ms
                &&& (*final(batch))@.next == (*batch)@.next + 1
                &&& (*final(batch))@.inserted == (*batch)@.inserted + rows
                &&& forall|next: BatchAction| #[trigger]
                    call_ensures(Batch::action, (&*final(batch),), next) ==> action@ == next@
            },
        forall|batch: &mut Batch, message: String, action: BatchAction| #[trigger]
            call_ensures(Batch::advance, (batch, Err::<usize, String>(message)), action) ==> {
                &&& (*final(batch))@ == (*batch)@
                &&& action matches BatchAction::Respond(reply)
                &&& reply.status == 500
                &&& reply.body@ == "{\"error\":\""@ + message@ + "\"}"@
            },
{
}

/// A request that is answered with status 200 is told how many rows its inserts
/// changed, all together.
pub proof fn law_the_answer_counts_the_rows(
    events: Seq<EventView>,
    now_ms: i64,
    outcomes: Seq<Result<nat, Seq<char>>>,
)
    requires
        deliver(arrived(events, now_ms), outcomes).reply matches Some(reply) && reply.status == 200,
    ensures
        deliver(arrived(events, now_ms), outcomes).rows.len() == events.len(),
        deliver(arrived(events, now_ms), outcomes).reply->0.body == "{\"ok\":true,\"inserted\":"@
            + crate::text::decimal(changed_rows(outcomes, events.len())) + "}"@,
{
    lemma_stored_to_the_end(arrived(events, now_ms), outcomes);
    lemma_well_to_the_end(arrived(events, now_ms), outcomes);
    lemma_good_part(events, now_ms, outcomes, events.len());
}

/// A header is the one that carries the credential under either notion of its
/// name.
proof fn lemma_authorization(field: Seq<char>)
    ensures
        names_authorization(field) <==> crate::server::same_but_for_case("Authorization"@, field),
{
    let name = "Authorization"@;
    assert forall|c: char, d: char| alike(c, d) <==> #[trigger] crate::server::ascii_lower(c)
        == #[trigger] crate::server::ascii_lower(d) by {}
    if names_authorization(field) {
        assert forall|i: int| 0 <= i < name.len() implies crate::server::ascii_lower(
            #[trigger] name[i],
        ) == crate::server::ascii_lower(field[i]) by {
            assert(alike(field[i], name[i]));
        }
    }
    if crate::server::same_but_for_case(name, field) {
        assert forall|j: int| 0 <= j < field.len() implies alike(#[trigger] field[j], name[j]) by {
            assert(crate::server::ascii_lower(name[j]) == crate::server::ascii_lower(field[j]));
        }
    }
}

/// The rows of a delivery are those of the events that were left, in order, each
/// with a kind, as far as it came.
proof fn lemma_rows_in_order(batch: BatchView, outcomes: Seq<Result<nat, Seq<char>>>)
    requires
        batch.next <= batch.events.len(),
    ensures
        batch.next + deliver(batch, outcomes).rows.len() <= batch.events.len(),
        forall|i: int|
            0 <= i < deliver(batch, outcomes).rows.len() ==> #[trigger] deliver(
                batch,
                outcomes,
            ).rows[i] == crate::server::row_of(batch.events[batch.next + i], batch.now_ms)
                && batch.events[batch.next + i].kind is Some,
    decreases outcomes.len(),
{
    if batch.next < batch.events.len() && batch.events[batch.next as int].kind is Some
        && outcomes.len() > 0 && outcomes[0] is Ok {
        let after = crate::server::after_insert(batch, outcomes[0]->Ok_0);
        lemma_rows_in_order(after, outcomes.drop_first());
        let rest = deliver(after, outcomes.drop_first()).rows;
        assert forall|i: int| 0 <= i < deliver(batch, outcomes).rows.len() implies #[trigger] deliver(
            batch,
            outcomes,
        ).rows[i] == crate::server::row_of(batch.events[batch.next + i], batch.now_ms)
            && batch.events[batch.next + i].kind is Some by {
            if i > 0 {
                assert(deliver(batch, outcomes).rows[i] == rest[i - 1]);
            }
        }
    }
}

/// In a delivery that ends with status 200 every event that was left has a kind,
/// and every insert went well.
proof fn lemma_well_to_the_end(batch: BatchView, outcomes: Seq<Result<nat, Seq<char>>>)
    requires
        batch.next <= batch.events.len(),
        deliver(batch, outcomes).reply matches Some(reply) && reply.status == 200,
    ensures
        batch.events.len() - batch.next <= outcomes.len(),
        forall|i: int|
            batch.next <= i < batch.events.len() ==> (#[trigger] batch.events[i]).kind is Some,
        forall|i: int| 0 <= i < batch.events.len() - batch.next ==> (#[trigger] outcomes[i]) is Ok,
    decreases outcomes.len(),
{
    if batch.next < batch.events.len() {
        let after = crate::server::after_insert(batch, outcomes[0]->Ok_0);
        let rest = outcomes.drop_first();
        lemma_well_to_the_end(after, rest);
        assert forall|i: int| 0 <= i < batch.events.len() - batch.next implies (
        #[trigger] outcomes[i]) is Ok by {
            if i > 0 {
                assert(rest[i - 1] == outcomes[i]);
            }
        }
    }
}

/// The part of a delivery that goes well, and what is left of it.
proof fn lemma_good_part(
    events: Seq<EventView>,
    now_ms: i64,
    outcomes: Seq<Result<nat, Seq<char>>>,
    count: nat,
)
    requires
        goes_well(events, outcomes, count),
    ensures
        ({
            let rest = deliver(
                BatchView {
                    events,
                    now_ms,
                    next: count,
                    inserted: changed_rows(outcomes, count),
                },
                outcomes.skip(count as int),
            );
            deliver(arrived(events, now_ms), outcomes) == Delivery {
                rows: first_rows(events, now_ms, count) + rest.rows,
                reply: rest.reply,
            }
        }),
    decreases count,
{
    if count == 0 {
        assert(outcomes.skip(0) =~= outcomes);
        assert(first_rows(events, now_ms, 0) + deliver(arrived(events, now_ms), outcomes).rows
            =~= deliver(arrived(events, now_ms), outcomes).rows);
    } else {
        let before = (count - 1) as nat;
        lemma_good_part(events, now_ms, outcomes, before);
        let batch = BatchView {
            events,
            now_ms,
            next: before,
            inserted: changed_rows(outcomes, before),
        };
        let left = outcomes.skip(before as int);
        assert(left[0] == outcomes[before as int]);
        assert(left.drop_first() =~= outcomes.skip(count as int));
        let row = crate::server::row_of(events[before as int], now_ms);
        assert(crate::server::next_action(batch) == ActionView::Insert(row));
        let rest = deliver(
            crate::server::after_insert(batch, outcomes[before as int]->Ok_0),
            outcomes.skip(count as int),
        );
        assert(first_rows(events, now_ms, before) + (seq![row] + rest.rows) =~= first_rows(
            events,
            now_ms,
            count,
        ) + rest.rows);
    }
}

/// A delivery that ends with status 200 has stored every event that was left.
proof fn lemma_stored_to_the_end(batch: BatchView, outcomes: Seq<Result<nat, Seq<char>>>)
    requires
        batch.next <= batch.events.len(),
        deliver(batch, outcomes).reply matches Some(reply) && reply.status == 200,
    ensures
        deliver(batch, outcomes).rows == batch.events.skip(batch.next as int).map_values(
            |event: EventView| crate::server::row_of(event, batch.now_ms),
        ),
    decreases outcomes.len(),
{
    let left = batch.events.skip(batch.next as int);
    if batch.next < batch.events.len() {
        let after = crate::server::after_insert(batch, outcomes[0]->Ok_0);
        lemma_stored_to_the_end(after, outcomes.drop_first());
        assert(left =~= seq![batch.events[batch.next as int]] + after.events.skip(
            after.next as int,
        ));
    }
    assert(deliver(batch, outcomes).rows =~= left.map_values(
        |event: EventView| crate::server::row_of(event, batch.now_ms),
    ));
}

proof fn lemma_one_row_each(outcomes: Seq<Result<nat, Seq<char>>>, count: nat)
    requires
        count <= outcomes.len(),
        forall|i: int| 0 <= i < outcomes.len() ==> #[trigger] outcomes[i] == Ok::<nat, Seq<char>>(1),
    ensures
        changed_rows(outcomes, count) == count,
    decreases count,
{
    if count > 0 {
        lemma_one_row_each(outcomes, (count - 1) as nat);
        assert(outcomes[count - 1] == Ok::<nat, Seq<char>>(1));
    }
}

proof fn lemma_answered(batch: BatchView, outcomes: Seq<Result<nat, Seq<char>>>)
    requires
        batch.next + outcomes.len() >= batch.events.len(),
    ensures
        deliver(batch, outcomes).reply is Some,
    decreases outcomes.len(),
{
    if outcomes.len() > 0 && outcomes[0] is Ok {
        lemma_answered(
            crate::server::after_insert(batch, outcomes[0]->Ok_0),
            outcomes.drop_first(),
        );
    }
}

} // verus!

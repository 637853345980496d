//! The ingest API: which requests are let in, what they are answered, and which
//! rows of `phone_events` they store.
use crate::json;
use crate::text::{copied, decimal_text, same_text};
use serde_json::Value;
use vstd::prelude::*;
use vstd::string::{StrSliceExecFns, StringExecFns};

verus! {

/// The method of a request.
#[derive(Clone, Copy, PartialEq, Eq, Structural, Debug)]
pub enum Method {
    Get,
    Post,
    /// Any other method.
    Other,
}

/// One header of a request.
pub struct Header {
    pub field: String,
    pub value: String,
}

/// A header, with its texts as character sequences.
pub struct HeaderView {
    pub field: Seq<char>,
    pub value: Seq<char>,
}

impl View for Header {
    type V = HeaderView;

    open spec fn view(&self) -> HeaderView {
        HeaderView { field: self.field@, value: self.value@ }
    }
}

/// The answer to a request: its status and its JSON body.
pub struct Reply {
    pub status: u16,
    pub body: String,
}

/// A reply, with its body as a character sequence.
#[verifier::ext_equal]
pub struct ReplyView {
    pub status: u16,
    pub body: Seq<char>,
}

impl View for Reply {
    type V = ReplyView;

    open spec fn view(&self) -> ReplyView {
        ReplyView { status: self.status, body: self.body@ }
    }
}

/// What is done with a request before its body is read.
pub enum Admission {
    /// It is answered at once, its body unread.
    Answer(Reply),
    /// Its body is read.
    ReadBody,
}

/// The answer to a health check.
pub open spec fn healthy() -> ReplyView {
    ReplyView { status: 200, body: "{\"ok\":true}"@ }
}

/// The answer to a request for anything else than the API offers.
pub open spec fn not_found() -> ReplyView {
    ReplyView { status: 404, body: "{\"error\":\"POST /events or GET /health\"}"@ }
}

/// The answer to a request without the bearer token.
pub open spec fn unauthorized() -> ReplyView {
    ReplyView { status: 401, body: "{\"error\":\"bad or missing bearer token\"}"@ }
}

/// An ASCII letter in lower case; any other character as it is.
pub open spec fn ascii_lower(c: char) -> char {
    if 'A' <= c <= 'Z' {
        (c as u32 + 32) as char
    } else {
        c
    }
}

/// Whether two texts are the same but for the case of ASCII letters.
pub open spec fn same_but_for_case(a: Seq<char>, b: Seq<char>) -> bool {
    &&& a.len() == b.len()
    &&& forall|i: int| 0 <= i < a.len() ==> ascii_lower(#[trigger] a[i]) == ascii_lower(b[i])
}

/// Whether the header at `i` is the first `Authorization` header.
pub open spec fn is_authorization(headers: Seq<HeaderView>, i: int) -> bool {
    &&& 0 <= i < headers.len()
    &&& same_but_for_case("Authorization"@, headers[i].field)
    &&& forall|j: int|
        0 <= j < i ==> !same_but_for_case("Authorization"@, (#[trigger] headers[j]).field)
}

/// Whether a request may store events: no token is required, or its first
/// `Authorization` header is the bearer token. An empty token is a token.
pub open spec fn authorized(headers: Seq<HeaderView>, token: Option<Seq<char>>) -> bool {
    match token {
        None => true,
        Some(token) => exists|i: int| #[trigger]
            is_authorization(headers, i) && headers[i].value == "Bearer "@ + token,
    }
}

/// What is done with a request before its body is read; nothing means that the
/// body is read.
pub open spec fn admission(
    method: Method,
    url: Seq<char>,
    headers: Seq<HeaderView>,
    token: Option<Seq<char>>,
) -> Option<ReplyView> {
    if method == Method::Get && url == "/health"@ {
        Some(healthy())
    } else if method != Method::Post || url != "/events"@ {
        Some(not_found())
    } else if !authorized(headers, token) {
        Some(unauthorized())
    } else {
        None
    }
}

/// The views of a list of headers.
pub open spec fn header_views(headers: Seq<Header>) -> Seq<HeaderView> {
    headers.map_values(|header: Header| header@)
}

fn reply(status: u16, body: &str) -> (reply: Reply)
    ensures
        reply@ == (ReplyView { status, body: body@ }),
{
    Reply { status, body: body.to_owned() }
}

fn lower(c: char) -> (lowered: char)
    ensures
        lowered == ascii_lower(c),
{
    if 'A' <= c && c <= 'Z' {
        ((c as u8) + 32) as char
    } else {
        c
    }
}

fn equal_but_for_case(a: &str, b: &str) -> (same: bool)
    ensures
        same == same_but_for_case(a@, b@),
{
    let length: usize = a.unicode_len();
    if length != b.unicode_len() {
        return false;
    }
    let mut i: usize = 0;
    while i < length
        invariant
            i <= length,
            length == a@.len(),
            length == b@.len(),
            forall|j: int| 0 <= j < i ==> ascii_lower(#[trigger] a@[j]) == ascii_lower(b@[j]),
        decreases length - i,
    {
        if lower(a.get_char(i)) != lower(b.get_char(i)) {
            assert(ascii_lower(a@[i as int]) != ascii_lower(b@[i as int]));
            return false;
        }
        i = i + 1;
    }
    true
}

fn bears(headers: &Vec<Header>, token: &str) -> (borne: bool)
    ensures
        borne == authorized(header_views(headers@), Some(token@)),
{
    let mut expected = "Bearer ".to_owned();
    expected.append(token);
    let ghost views = header_views(headers@);
    let mut i: usize = 0;
    while i < headers.len()
        invariant
            i <= headers.len(),
            views == header_views(headers@),
            expected@ == "Bearer "@ + token@,
            forall|j: int|
                0 <= j < i ==> !same_but_for_case("Authorization"@, (#[trigger] views[j]).field),
        decreases headers.len() - i,
    {
        let header = &headers[i];
        assert(views[i as int] == header@);
        if equal_but_for_case("Authorization", header.field.as_str()) {
            let borne = same_text(header.value.as_str(), expected.as_str());
            assert(is_authorization(views, i as int));
            assert forall|k: int| #[trigger] is_authorization(views, k) implies k == i by {}
            return borne;
        }
        i = i + 1;
    }
    assert forall|k: int| #[trigger] is_authorization(views, k) implies false by {
        assert(!same_but_for_case("Authorization"@, views[k].field));
    }
    false
}

/// Decides, before its body is read, whether a request is let in, and what it is
/// answered if not. Anyone may ask for the health of the API; storing events
/// takes the token, where one is required: `token` is the value of
/// `LIFELOG_TOKEN` where that is set, be it empty.
pub fn screen_request(
    method: Method,
    url: &str,
    headers: &Vec<Header>,
    token: &Option<String>,
) -> (decision: Admission)
    ensures
        admission(method, url@, header_views(headers@), token.deep_view()) == match decision {
            Admission::Answer(reply) => Some(reply@),
            Admission::ReadBody => None,
        },
{
    if method == Method::Get && same_text(url, "/health") {
        return Admission::Answer(reply(200, "{\"ok\":true}"));
    }
    if method != Method::Post || !same_text(url, "/events") {
        return Admission::Answer(reply(404, "{\"error\":\"POST /events or GET /health\"}"));
    }
    if let Some(expected) = token {
        if !bears(headers, expected.as_str()) {
            return Admission::Answer(reply(401, "{\"error\":\"bad or missing bearer token\"}"));
        }
    }
    Admission::ReadBody
}

/// One posted event, as far as it says anything that is stored.
pub struct IncomingEvent {
    /// Its kind, where that is a string.
    pub kind: Option<String>,
    /// Its time, where that is an integer.
    pub ts_ms: Option<i64>,
    /// Its device, where that is a string.
    pub device: Option<String>,
    /// Its payload as JSON text, whatever it is.
    pub payload: Option<String>,
}

/// A posted event, with its texts as character sequences.
#[verifier::ext_equal]
pub struct EventView {
    pub kind: Option<Seq<char>>,
    pub ts_ms: Option<i64>,
    pub device: Option<Seq<char>>,
    pub payload: Option<Seq<char>>,
}

impl View for IncomingEvent {
    type V = EventView;

    open spec fn view(&self) -> EventView {
        EventView {
            kind: self.kind.deep_view(),
            ts_ms: self.ts_ms,
            device: self.device.deep_view(),
            payload: self.payload.deep_view(),
        }
    }
}

/// The views of a list of events.
pub open spec fn event_views(events: Seq<IncomingEvent>) -> Seq<EventView> {
    events.map_values(|event: IncomingEvent| event@)
}

/// The text of a member that may be missing.
pub open spec fn member_text(value: json::Json, name: Seq<char>) -> Option<Seq<char>> {
    match json::member(value, name) {
        Some(found) => json::text(found),
        None => None,
    }
}

/// The integer of a member that may be missing.
pub open spec fn member_integer(value: json::Json, name: Seq<char>) -> Option<i64> {
    match json::member(value, name) {
        Some(found) => json::integer(found),
        None => None,
    }
}

/// What a JSON value says as an event.
pub open spec fn event_of(value: json::Json) -> EventView {
    EventView {
        kind: member_text(value, "kind"@),
        ts_ms: member_integer(value, "ts_ms"@),
        device: member_text(value, "device"@),
        payload: match json::member(value, "payload"@) {
            Some(found) => Some(json::printed(found)),
            None => None,
        },
    }
}

/// What a request body posts: the items of an array, or else the one value that
/// the body is.
pub open spec fn items_of(body: json::Json) -> Seq<json::Json> {
    match body {
        json::Json::Array(items) => items,
        value => seq![value],
    }
}

/// The events of a request body: one for each value that it posts.
pub open spec fn events_of(body: json::Json) -> Seq<EventView> {
    items_of(body).map_values(|item: json::Json| event_of(item))
}

/// Whether the JSON text `payload` stands for the payload of a posted value:
/// there is one where the value has one, and it reads as just that, be it an
/// object, an array, a string, a number, a truth value or null, as long as every
/// number in it is an integer.
pub open spec fn keeps_payload(item: json::Json, payload: Option<Seq<char>>) -> bool {
    match json::member(item, "payload"@) {
        Some(posted) => {
            &&& payload is Some
            &&& json::whole(posted) ==> json::reads_as(payload->0, posted)
        },
        None => payload is None,
    }
}

/// Whether each event keeps the payload of its posted value.
pub open spec fn payloads_kept(body: json::Json, events: Seq<IncomingEvent>) -> bool {
    &&& events.len() == items_of(body).len()
    &&& forall|i: int|
        0 <= i < events.len() ==> keeps_payload(
            items_of(body)[i],
            (#[trigger] events[i])@.payload,
        )
}

fn string_member(value: &Value, name: &str) -> (found: Option<String>)
    ensures
        found.deep_view() == member_text(json::tree(*value), name@),
{
    match json::get(value, name) {
        Some(found) => match found.as_str() {
            Some(text) => Some(text.to_owned()),
            None => None,
        },
        None => None,
    }
}

/// Reads a JSON value as an event.
pub fn read_event(value: &Value) -> (event: IncomingEvent)
    ensures
        event@ == event_of(json::tree(*value)),
        json::nests(json::tree(*value), json::DEEPEST as nat) ==> keeps_payload(
            json::tree(*value),
            event@.payload,
        ),
{
    proof {
        if json::nests(json::tree(*value), json::DEEPEST as nat) {
            json::lemma_parts_nest(json::tree(*value), json::DEEPEST as nat);
        }
    }
    let ts_ms = match json::get(value, "ts_ms") {
        Some(found) => found.as_i64(),
        None => None,
    };
    let payload = match json::get(value, "payload") {
        Some(found) => Some(json::print(found)),
        None => None,
    };
    IncomingEvent {
        kind: string_member(value, "kind"),
        ts_ms,
        device: string_member(value, "device"),
        payload,
    }
}

/// Reads a request body as events: one, or an array of them.
pub fn read_events(body: &Value) -> (events: Vec<IncomingEvent>)
    ensures
        event_views(events@) == events_of(json::tree(*body)),
        json::nests(json::tree(*body), json::DEEPEST as nat) ==> payloads_kept(
            json::tree(*body),
            events@,
        ),
{
    let ghost shallow = json::nests(json::tree(*body), json::DEEPEST as nat);
    let mut events: Vec<IncomingEvent> = Vec::new();
    match body.as_array() {
        Some(items) => {
            let mut i: usize = 0;
            while i < items.len()
                invariant
                    i <= items.len(),
                    events.len() == i,
                    forall|j: int|
                        0 <= j < i ==> (#[trigger] events@[j])@ == event_of(json::tree(items@[j])),
                    json::tree(*body) == json::Json::Array(json::trees(items@)),
                    shallow == json::nests(json::tree(*body), json::DEEPEST as nat),
                    shallow ==> forall|j: int|
                        0 <= j < i ==> keeps_payload(
                            json::tree(items@[j]),
                            (#[trigger] events@[j])@.payload,
                        ),
                decreases items.len() - i,
            {
                proof {
                    if shallow {
                        json::lemma_parts_nest(json::tree(*body), json::DEEPEST as nat);
                        assert(json::trees(items@)[i as int] == json::tree(items@[i as int]));
                    }
                }
                events.push(read_event(&items[i]));
                i = i + 1;
            }
            assert(event_views(events@) =~= json::trees(items@).map_values(
                |item: json::Json| event_of(item),
            ));
        },
        None => {
            events.push(read_event(body));
            assert(event_views(events@) =~= events_of(json::tree(*body)));
        },
    }
    events
}

/// The answer to a request whose body could not be read.
pub open spec fn unreadable() -> ReplyView {
    ReplyView { status: 400, body: "{\"error\":\"unreadable body\"}"@ }
}

/// The answer to a body that is not JSON, which `message` says more about.
pub open spec fn invalid_json(message: Seq<char>) -> ReplyView {
    ReplyView { status: 400, body: "{\"error\":\"invalid json: "@ + message + "\"}"@ }
}

/// Answers a body that is not JSON.
pub fn refuse_json(message: &str) -> (refusal: Reply)
    ensures
        refusal@ == invalid_json(message@),
{
    let mut body = "{\"error\":\"invalid json: ".to_owned();
    body.append(message);
    body.append("\"}");
    Reply { status: 400, body }
}

/// Reads the body of a request that was let in; `None` stands for a body that
/// could not be read. Gives the events of the body, or the answer to a request
/// without any. Each payload reads as what was posted, since no body nests deeper
/// than can be read again.
pub fn read_body(body: &Option<String>) -> (events: Result<Vec<IncomingEvent>, Reply>)
    ensures
        match *body {
            None => events matches Err(refusal) && refusal@ == unreadable(),
            Some(text) => match json::parsed(text@) {
                Ok(value) => {
                    &&& events matches Ok(events)
                    &&& event_views(events@) == events_of(value)
                    &&& payloads_kept(value, events@)
                },
                Err(message) => events matches Err(refusal) && refusal@ == invalid_json(message),
            },
        },
{
    match body {
        None => Err(reply(400, "{\"error\":\"unreadable body\"}")),
        Some(text) => match json::parse(text.as_str()) {
            Ok(value) => Ok(read_events(&value)),
            Err(message) => Err(refuse_json(message.as_str())),
        },
    }
}

/// One row of the `phone_events` table.
pub struct PhoneEvent {
    pub ts_ms: i64,
    pub device: Option<String>,
    pub kind: String,
    /// Raw JSON.
    pub payload: Option<String>,
}

/// A row of `phone_events`, with its texts as character sequences.
#[verifier::ext_equal]
pub struct RowView {
    pub ts_ms: i64,
    pub device: Option<Seq<char>>,
    pub kind: Seq<char>,
    pub payload: Option<Seq<char>>,
}

impl View for PhoneEvent {
    type V = RowView;

    open spec fn view(&self) -> RowView {
        RowView {
            ts_ms: self.ts_ms,
            device: self.device.deep_view(),
            kind: self.kind@,
            payload: self.payload.deep_view(),
        }
    }
}

/// The row of an event that has a kind. Its time defaults to the time of
/// arrival.
pub open spec fn row_of(event: EventView, now_ms: i64) -> RowView {
    RowView {
        ts_ms: match event.ts_ms {
            Some(ts_ms) => ts_ms,
            None => now_ms,
        },
        device: event.device,
        kind: event.kind->0,
        payload: event.payload,
    }
}

/// The answer to a request all of whose events were stored, as `rows` rows.
pub open spec fn stored(rows: nat) -> ReplyView {
    ReplyView {
        status: 200,
        body: "{\"ok\":true,\"inserted\":"@ + crate::text::decimal(rows) + "}"@,
    }
}

/// The answer to a request with an event that has no kind.
pub open spec fn kind_missing() -> ReplyView {
    ReplyView { status: 400, body: "{\"error\":\"each event needs a string 'kind'\"}"@ }
}

/// The answer to a request with an event that the database refused, which
/// `message` says more about.
pub open spec fn store_failed(message: Seq<char>) -> ReplyView {
    ReplyView { status: 500, body: "{\"error\":\""@ + message + "\"}"@ }
}

/// The events of one request on their way into the database.
pub struct Batch {
    events: Vec<IncomingEvent>,
    now_ms: i64,
    next: usize,
    inserted: usize,
}

/// A batch: its events, the time of arrival, how many events are stored, and as
/// how many rows.
#[verifier::ext_equal]
pub struct BatchView {
    pub events: Seq<EventView>,
    pub now_ms: i64,
    pub next: nat,
    pub inserted: nat,
}

impl View for Batch {
    type V = BatchView;

    closed spec fn view(&self) -> BatchView {
        BatchView {
            events: event_views(self.events@),
            now_ms: self.now_ms,
            next: self.next as nat,
            inserted: self.inserted as nat,
        }
    }
}

/// What is to be done next for a batch.
pub enum BatchAction {
    /// Insert a row, and say how that went.
    Insert(PhoneEvent),
    /// Answer the request; the batch is done.
    Respond(Reply),
}

/// An action, with its texts as character sequences.
#[verifier::ext_equal]
pub enum ActionView {
    Insert(RowView),
    Respond(ReplyView),
}

impl View for BatchAction {
    type V = ActionView;

    open spec fn view(&self) -> ActionView {
        match self {
            BatchAction::Insert(row) => ActionView::Insert(row@),
            BatchAction::Respond(reply) => ActionView::Respond(reply@),
        }
    }
}

/// What is to be done next for a batch: its next event is inserted; a batch at
/// its end, or at an event without a kind, is answered.
pub open spec fn next_action(batch: BatchView) -> ActionView {
    if batch.next >= batch.events.len() {
        ActionView::Respond(stored(batch.inserted))
    } else if batch.events[batch.next as int].kind is None {
        ActionView::Respond(kind_missing())
    } else {
        ActionView::Insert(row_of(batch.events[batch.next as int], batch.now_ms))
    }
}

/// A batch after an insert that went well and changed `rows` rows.
pub open spec fn after_insert(batch: BatchView, rows: nat) -> BatchView {
    BatchView { next: batch.next + 1, inserted: batch.inserted + rows, ..batch }
}

impl Batch {
    /// A batch of events that arrived at `now_ms`, with nothing stored yet.
    pub fn new(events: Vec<IncomingEvent>, now_ms: i64) -> (batch: Batch)
        ensures
            batch@ == (BatchView {
                events: event_views(events@),
                now_ms,
                next: 0,
                inserted: 0,
            }),
    {
        Batch { events, now_ms, next: 0, inserted: 0 }
    }

    /// How many rows the batch has stored.
    pub fn inserted(&self) -> (rows: usize)
        ensures
            rows == self@.inserted,
    {
        self.inserted
    }

    /// What is to be done next.
    pub fn action(&self) -> (action: BatchAction)
        ensures
            action@ == next_action(self@),
    {
        if self.next >= self.events.len() {
            let mut body = "{\"ok\":true,\"inserted\":".to_owned();
            body.append(decimal_text(self.inserted as u64).as_str());
            body.append("}");
            return BatchAction::Respond(Reply { status: 200, body });
        }
        let event = &self.events[self.next];
        assert(self@.events[self.next as int] == event@);
        match &event.kind {
            None => BatchAction::Respond(
                reply(400, "{\"error\":\"each event needs a string 'kind'\"}"),
            ),
            Some(kind) => BatchAction::Insert(
                PhoneEvent {
                    ts_ms: match event.ts_ms {
                        Some(ts_ms) => ts_ms,
                        None => self.now_ms,
                    },
                    device: copied(&event.device),
                    kind: kind.clone(),
                    payload: copied(&event.payload),
                },
            ),
        }
    }

    /// Takes note of how the insert of the last action went: the number of rows
    /// it changed, or the message it failed with. Says what is to be done next;
    /// after a failure the request is answered, and what was stored stays.
    pub fn advance(&mut self, outcome: Result<usize, String>) -> (action: BatchAction)
        requires
            next_action(old(self)@) is Insert,
            outcome matches Ok(rows) ==> old(self)@.inserted + rows <= usize::MAX,
        ensures
            match outcome {
                Ok(rows) => {
                    &&& final(self)@ == after_insert(old(self)@, rows as nat)
                    &&& action@ == next_action(final(self)@)
                },
                Err(message) => {
                    &&& final(self)@ == old(self)@
                    &&& action@ == ActionView::Respond(store_failed(message@))
                },
            },
    {
        match outcome {
            Ok(rows) => {
                assert(self.next < self.events.len());
                self.next = self.next + 1;
                self.inserted = self.inserted + rows;
                self.action()
            },
            Err(message) => {
                let mut body = "{\"error\":\"".to_owned();
                body.append(message.as_str());
                body.append("\"}");
                BatchAction::Respond(Reply { status: 500, body })
            },
        }
    }
}

} // verus!

use lifelog::server::{
    read_body, read_event, read_events, refuse_json, screen_request, Admission, Batch, BatchAction,
    Header, IncomingEvent, Method, PhoneEvent, Reply,
};
use serde_json::Value;

fn header(field: &str, value: &str) -> Header {
    Header { field: field.to_string(), value: value.to_string() }
}

fn text(s: &str) -> Option<String> {
    Some(s.to_string())
}

/// The status and body of a refusal, or nothing where the body is read.
fn refusal(
    method: Method,
    url: &str,
    headers: &[(&str, &str)],
    token: Option<&str>,
) -> Option<(u16, String)> {
    let headers: Vec<Header> = headers.iter().map(|(f, v)| header(f, v)).collect();
    match screen_request(method, url, &headers, &token.map(String::from)) {
        Admission::Answer(Reply { status, body }) => Some((status, body)),
        Admission::ReadBody => None,
    }
}

#[test]
fn health_needs_no_token() {
    let ok = Some((200, r#"{"ok":true}"#.to_string()));
    assert_eq!(refusal(Method::Get, "/health", &[], None), ok);
    assert_eq!(refusal(Method::Get, "/health", &[], Some("secret")), ok);
}

#[test]
fn anything_else_is_not_found() {
    let missing = Some((404, r#"{"error":"POST /events or GET /health"}"#.to_string()));
    assert_eq!(refusal(Method::Get, "/events", &[], None), missing);
    assert_eq!(refusal(Method::Post, "/health", &[], None), missing);
    assert_eq!(refusal(Method::Other, "/events", &[], None), missing);
    assert_eq!(refusal(Method::Post, "/events/", &[], None), missing);
    assert_eq!(refusal(Method::Post, "/events?x=1", &[], None), missing);
}

#[test]
fn token_is_required_iff_it_is_set() {
    let bad = Some((401, r#"{"error":"bad or missing bearer token"}"#.to_string()));
    assert_eq!(refusal(Method::Post, "/events", &[], None), None);
    assert_eq!(refusal(Method::Post, "/events", &[], Some("secret")), bad);
    let with = |field: &str, value: &str| {
        refusal(Method::Post, "/events", &[("Host", "x"), (field, value)], Some("secret"))
    };
    assert_eq!(with("Authorization", "Bearer secret"), None);
    assert_eq!(with("aUTHORIZATION", "Bearer secret"), None);
    assert_eq!(with("Authorization", "bearer secret"), bad);
    assert_eq!(with("Authorization", "Bearer secret "), bad);
    assert_eq!(with("Authorization", "secret"), bad);
    assert_eq!(with("Authorisation", "Bearer secret"), bad);
}

#[test]
fn only_the_first_authorization_counts() {
    let headers = [("Authorization", "Bearer wrong"), ("Authorization", "Bearer secret")];
    assert!(refusal(Method::Post, "/events", &headers, Some("secret")).is_some());
    let headers = [("Authorization", "Bearer secret"), ("Authorization", "Bearer wrong")];
    assert!(refusal(Method::Post, "/events", &headers, Some("secret")).is_none());
}

#[test]
fn an_empty_token_is_a_token() {
    let bad = Some((401, r#"{"error":"bad or missing bearer token"}"#.to_string()));
    assert_eq!(refusal(Method::Post, "/events", &[], Some("")), bad);
    let with = |value: &str| {
        refusal(Method::Post, "/events", &[("Authorization", value)], Some(""))
    };
    assert_eq!(with(""), bad);
    assert_eq!(with("Bearer"), bad);
    assert_eq!(with("Bearer x"), bad);
    assert_eq!(with("Bearer "), None);
}

fn fields(event: IncomingEvent) -> (Option<String>, Option<i64>, Option<String>, Option<String>) {
    (event.kind, event.ts_ms, event.device, event.payload)
}

fn body_events(body: &str) -> Vec<(Option<String>, Option<i64>, Option<String>, Option<String>)> {
    match read_body(&text(body)) {
        Ok(events) => events.into_iter().map(fields).collect(),
        Err(reply) => panic!("{}", reply.body),
    }
}

#[test]
fn the_documented_event() {
    assert_eq!(
        body_events(r#"{"kind": "app_opened", "device": "iphone", "payload": {"app": "Instagram"}}"#),
        vec![(text("app_opened"), None, text("iphone"), text(r#"{"app":"Instagram"}"#))]
    );
}

#[test]
fn one_event_needs_no_array() {
    let event = r#"{"kind":"a","ts_ms":5}"#;
    assert_eq!(body_events(event), body_events(&format!("[{event}]")));
    assert_eq!(body_events("[]"), vec![]);
    assert_eq!(body_events(&format!("[{event}, 3, {event}]")).len(), 3);
}

#[test]
fn fields_of_another_type_are_missing() {
    assert_eq!(
        body_events(r#"{"kind":1,"ts_ms":"5","device":null,"payload":null}"#),
        vec![(None, None, None, text("null"))]
    );
    assert_eq!(body_events(r#""kind""#), vec![(None, None, None, None)]);
    assert_eq!(body_events(r#"{"kind":"a","ts_ms":5.0}"#), vec![(text("a"), None, None, None)]);
}

#[test]
fn times_are_integers_of_64_bits() {
    let ts = |n: &str| body_events(&format!(r#"{{"ts_ms":{n}}}"#))[0].1;
    assert_eq!(ts("9223372036854775807"), Some(i64::MAX));
    assert_eq!(ts("-9223372036854775808"), Some(i64::MIN));
    assert_eq!(ts("9223372036854775808"), None);
    assert_eq!(ts("1e3"), None);
}

#[test]
fn payloads_are_compact_json() {
    let payload = |json: &str| body_events(&format!(r#"{{"payload": {json}}}"#))[0].3.clone();
    assert_eq!(payload(r#"{ "b": [1, 2.5, true], "a": "x\ny" }"#), text(r#"{"a":"x\ny","b":[1,2.5,true]}"#));
    assert_eq!(payload(r#""quoted""#), text(r#""quoted""#));
}

#[test]
fn payloads_read_back() {
    let nested = format!("{}{}", "[".repeat(125), "]".repeat(125));
    let payloads = [
        r#"{"app":"Instagram","n":[1,{"":null}]}"#,
        r#"[]"#,
        r#"{}"#,
        r#""a \"quoted\" \\ \/ \n \u0000 \u001f \u00e9 \ud83d\ude00 text""#,
        "-9223372036854775808",
        "18446744073709551615",
        "0",
        "true",
        "false",
        "null",
        nested.as_str(),
    ];
    for payload in payloads {
        let posted: Value = serde_json::from_str(payload).expect("a value");
        let events = body_events(&format!(r#"[{{"kind":"k","payload":{payload}}},{{"kind":"k"}}]"#));
        let stored = events[0].3.clone().expect("a payload");
        assert_eq!(serde_json::from_str::<Value>(&stored).expect("a value"), posted);
        assert_eq!(events[1].3, None);
    }
}

#[test]
fn bodies_nest_so_deep() {
    let body = |levels: usize| Some(format!("{}{}", "[".repeat(levels), "]".repeat(levels)));
    assert!(read_body(&body(127)).is_ok());
    match read_body(&body(128)) {
        Ok(_) => panic!("too deep"),
        Err(reply) => assert!(reply.body.contains("recursion limit exceeded")),
    }
}

#[test]
fn values_built_by_hand() {
    let mut members = serde_json::Map::new();
    members.insert("kind".to_string(), Value::String("unlock".to_string()));
    members.insert("ts_ms".to_string(), Value::from(12));
    let value = Value::Object(members);
    assert_eq!(fields(read_event(&value)), (text("unlock"), Some(12), None, None));
    assert_eq!(read_events(&value).len(), 1);
    assert_eq!(read_events(&Value::Array(vec![value.clone(), value])).len(), 2);
}

#[test]
fn bodies_that_are_refused() {
    match read_body(&None) {
        Err(reply) => {
            assert_eq!((reply.status, reply.body.as_str()), (400, r#"{"error":"unreadable body"}"#))
        }
        Ok(_) => panic!("must refuse"),
    }
    match read_body(&text("{")) {
        Err(reply) => assert_eq!(
            (reply.status, reply.body.as_str()),
            (400, r#"{"error":"invalid json: EOF while parsing an object at line 1 column 1"}"#)
        ),
        Ok(_) => panic!("must refuse"),
    }
    let reply = refuse_json("why");
    assert_eq!((reply.status, reply.body.as_str()), (400, r#"{"error":"invalid json: why"}"#));
}

/// Performs a batch against the given outcomes of its inserts.
fn deliver(
    events: Vec<IncomingEvent>,
    now_ms: i64,
    outcomes: Vec<Result<usize, String>>,
) -> (Vec<PhoneEvent>, Reply) {
    let mut stored = vec![];
    let mut outcomes = outcomes.into_iter();
    let mut batch = Batch::new(events, now_ms);
    let mut action = batch.action();
    loop {
        match action {
            BatchAction::Respond(reply) => return (stored, reply),
            BatchAction::Insert(row) => {
                let outcome = outcomes.next().expect("an outcome for each insert");
                if outcome.is_ok() {
                    stored.push(row);
                }
                action = batch.advance(outcome);
            }
        }
    }
}

fn event(kind: Option<&str>, ts_ms: Option<i64>) -> IncomingEvent {
    IncomingEvent { kind: kind.map(String::from), ts_ms, device: text("iphone"), payload: text("{}") }
}

#[test]
fn a_good_request_stores_every_event() {
    let (rows, reply) = deliver(
        vec![event(Some("a"), Some(5)), event(Some("b"), None)],
        99,
        vec![Ok(1), Ok(1)],
    );
    assert_eq!((reply.status, reply.body.as_str()), (200, r#"{"ok":true,"inserted":2}"#));
    assert_eq!(rows.iter().map(|r| r.kind.as_str()).collect::<Vec<_>>(), ["a", "b"]);
    assert_eq!(rows.iter().map(|r| r.ts_ms).collect::<Vec<_>>(), [5, 99]);
    assert_eq!((rows[0].device.clone(), rows[0].payload.clone()), (text("iphone"), text("{}")));
}

#[test]
fn no_events_are_a_good_request() {
    let (rows, reply) = deliver(vec![], 99, vec![]);
    assert!(rows.is_empty());
    assert_eq!((reply.status, reply.body.as_str()), (200, r#"{"ok":true,"inserted":0}"#));
}

#[test]
fn an_event_without_kind_ends_the_request() {
    let (rows, reply) = deliver(
        vec![event(Some("a"), None), event(None, None), event(Some("c"), None)],
        99,
        vec![Ok(1)],
    );
    assert_eq!(rows.len(), 1);
    assert_eq!(
        (reply.status, reply.body.as_str()),
        (400, r#"{"error":"each event needs a string 'kind'"}"#)
    );
}

#[test]
fn a_failed_insert_ends_the_request() {
    let (rows, reply) = deliver(
        vec![event(Some("a"), None), event(Some("b"), None), event(Some("c"), None)],
        99,
        vec![Ok(1), Err("database is locked".to_string())],
    );
    assert_eq!(rows.len(), 1);
    assert_eq!((reply.status, reply.body.as_str()), (500, r#"{"error":"database is locked"}"#));
}

#[test]
fn a_batch_counts_its_rows() {
    let mut batch = Batch::new(vec![event(Some("a"), None), event(Some("b"), None)], 0);
    assert_eq!(batch.inserted(), 0);
    batch.advance(Ok(3));
    assert_eq!(batch.inserted(), 3);
    batch.advance(Err("no".to_string()));
    assert_eq!(batch.inserted(), 3);
}
